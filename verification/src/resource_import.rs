//! Importing resource files (journal lists and the like): recognising the
//! columns of a spreadsheet by their aliases, and what a saved resource is
//! recorded with. Copying files and writing the database is the caller's.
use vstd::prelude::*;
use crate::patterns::{safe_name, safe_name_spec};
use crate::text::{
    append, cat, contains, contains_spec, is_blank, is_blank_spec, lowercase, owned, str_eq, strs, to_lowercase,
    trim, trim_spec, views,
};

verus! {

/// Which original column each recognised field was found in.
#[derive(Clone, Debug)]
pub struct ColumnMap {
    pub entries: Vec<(String, String)>,
}

/// The plain values of a column map: field, then column.
pub open spec fn map_entries(m: ColumnMap) -> Seq<(Seq<char>, Seq<char>)> {
    m.entries@.map_values(|e: (String, String)| (e.0@, e.1@))
}

/// The first entry for a field.
pub open spec fn lookup(entries: Seq<(Seq<char>, Seq<char>)>, key: Seq<char>) -> Option<Seq<char>>
    decreases entries.len(),
{
    if entries.len() == 0 {
        None
    } else {
        match lookup(entries.drop_last(), key) {
            Some(v) => Some(v),
            None => if entries.last().0 == key { Some(entries.last().1) } else { None },
        }
    }
}

impl ColumnMap {
    /// The column a field was found in.
    pub fn get(&self, key: &str) -> (r: Option<&String>)
        ensures
            match r {
                Some(v) => lookup(map_entries(*self), key@) == Some(v@),
                None => lookup(map_entries(*self), key@) is None,
            },
    {
        let mut i: usize = 0;
        while i < self.entries.len()
            invariant
                i <= self.entries@.len(),
                lookup(map_entries(*self).take(i as int), key@) is None,
            decreases self.entries@.len() - i,
        {
            proof {
                assert(map_entries(*self).take(i + 1).drop_last() =~= map_entries(*self).take(i as int));
                assert(map_entries(*self).take(i + 1).last() == (self.entries@[i as int].0@, self.entries@[i as int].1@));
            }
            if str_eq(self.entries[i].0.as_str(), key) {
                proof {
                    lemma_lookup_prefix(map_entries(*self), key@, i as int + 1);
                }
                return Some(&self.entries[i].1);
            }
            i = i + 1;
        }
        assert(map_entries(*self).take(i as int) =~= map_entries(*self));
        None
    }

    /// How many fields were recognised.
    pub fn len(&self) -> (r: usize)
        ensures
            r == self.entries@.len(),
    {
        self.entries.len()
    }
}

proof fn lemma_lookup_prefix(entries: Seq<(Seq<char>, Seq<char>)>, key: Seq<char>, k: int)
    requires
        0 <= k <= entries.len(),
        lookup(entries.take(k), key) is Some,
    ensures
        lookup(entries, key) == lookup(entries.take(k), key),
    decreases entries.len() - k,
{
    if k < entries.len() {
        assert(entries.take(k + 1).drop_last() =~= entries.take(k));
        lemma_lookup_prefix(entries, key, k + 1);
    } else {
        assert(entries.take(k) =~= entries);
    }
}

/// The fields a resource table may hold, each with the column names that
/// stand for it.
pub open spec fn column_aliases() -> Seq<(Seq<char>, Seq<Seq<char>>)> {
    seq![
        ("期刊名称"@, seq!["期刊名称"@, "刊名"@, "期刊名"@, "journal"@, "journal name"@, "title"@, "刊物名称"@]),
        ("ISSN"@, seq!["issn"@, "print issn"@, "p-issn"@]),
        ("eISSN"@, seq!["eissn"@, "e-issn"@, "online issn"@]),
        ("影响因子"@, seq!["影响因子"@, "if"@, "jif"@, "impact factor"@]),
        ("JIF分区"@, seq!["jif分区"@, "jcr分区"@, "quartile"@, "jif quartile"@, "jcr quartile"@]),
        ("中科院分区"@, seq!["中科院分区"@, "分区"@, "cas"@, "大类分区"@, "小类分区"@]),
        ("学科"@, seq!["学科"@, "所属学科"@, "subject"@, "category"@, "学科分类"@]),
        ("出版社"@, seq!["出版社"@, "publisher"@]),
    ]
}

/// Whether a lower-cased column name stands for an alias: it is the alias
/// in lower case or holds it.
pub open spec fn column_fits(lowered: Seq<char>, alias: Seq<char>) -> bool {
    lowered == lowercase(alias) || contains_spec(lowered, lowercase(alias))
}

/// The first column, in order, whose lower-cased trimmed name fits the
/// alias.
pub open spec fn column_for(lowered: Seq<Seq<char>>, alias: Seq<char>) -> Option<int>
    decreases lowered.len(),
{
    if lowered.len() == 0 {
        None
    } else {
        match column_for(lowered.drop_last(), alias) {
            Some(k) => Some(k),
            None => if column_fits(lowered.last(), alias) { Some(lowered.len() - 1) } else { None },
        }
    }
}

/// The column found through the first alias, in order, that any column
/// fits.
pub open spec fn column_for_aliases(lowered: Seq<Seq<char>>, aliases: Seq<Seq<char>>) -> Option<int>
    decreases aliases.len(),
{
    if aliases.len() == 0 {
        None
    } else {
        match column_for_aliases(lowered, aliases.drop_last()) {
            Some(k) => Some(k),
            None => column_for(lowered, aliases.last()),
        }
    }
}

/// The recognised fields, in table order, each with the original name of
/// its column.
pub open spec fn detected(columns: Seq<Seq<char>>, table: Seq<(Seq<char>, Seq<Seq<char>>)>) -> Seq<(Seq<char>, Seq<char>)>
    decreases table.len(),
{
    if table.len() == 0 {
        seq![]
    } else {
        let earlier = detected(columns, table.drop_last());
        let lowered = columns.map_values(|c: Seq<char>| lowercase(trim_spec(c)));
        match column_for_aliases(lowered, table.last().1) {
            Some(k) => earlier.push((table.last().0, columns[k])),
            None => earlier,
        }
    }
}

proof fn lemma_column_for_range(lowered: Seq<Seq<char>>, alias: Seq<char>)
    ensures
        match column_for(lowered, alias) {
            Some(k) => 0 <= k < lowered.len(),
            None => true,
        },
    decreases lowered.len(),
{
    if lowered.len() > 0 {
        lemma_column_for_range(lowered.drop_last(), alias);
    }
}

proof fn lemma_column_for_aliases_range(lowered: Seq<Seq<char>>, aliases: Seq<Seq<char>>)
    ensures
        match column_for_aliases(lowered, aliases) {
            Some(k) => 0 <= k < lowered.len(),
            None => true,
        },
    decreases aliases.len(),
{
    if aliases.len() > 0 {
        lemma_column_for_aliases_range(lowered, aliases.drop_last());
        lemma_column_for_range(lowered, aliases.last());
    }
}

fn find_column(lowered: &Vec<String>, alias: &str) -> (r: Option<usize>)
    ensures
        match r {
            Some(k) => column_for(views(lowered@), alias@) == Some(k as int),
            None => column_for(views(lowered@), alias@) is None,
        },
{
    let a = to_lowercase(alias);
    let mut i: usize = 0;
    while i < lowered.len()
        invariant
            i <= lowered@.len(),
            a@ == lowercase(alias@),
            column_for(views(lowered@).take(i as int), alias@) is None,
        decreases lowered@.len() - i,
    {
        proof {
            assert(views(lowered@).take(i + 1).drop_last() =~= views(lowered@).take(i as int));
            assert(views(lowered@).take(i + 1).last() == lowered@[i as int]@);
        }
        if str_eq(lowered[i].as_str(), a.as_str()) || contains(lowered[i].as_str(), a.as_str()) {
            proof {
                lemma_column_for_prefix(views(lowered@), alias@, i as int + 1);
            }
            return Some(i);
        }
        i = i + 1;
    }
    assert(views(lowered@).take(i as int) =~= views(lowered@));
    None
}

proof fn lemma_column_for_prefix(lowered: Seq<Seq<char>>, alias: Seq<char>, k: int)
    requires
        0 <= k <= lowered.len(),
        column_for(lowered.take(k), alias) is Some,
    ensures
        column_for(lowered, alias) == column_for(lowered.take(k), alias),
    decreases lowered.len() - k,
{
    if k < lowered.len() {
        assert(lowered.take(k + 1).drop_last() =~= lowered.take(k));
        lemma_column_for_prefix(lowered, alias, k + 1);
    } else {
        assert(lowered.take(k) =~= lowered);
    }
}

fn find_column_for_aliases(lowered: &Vec<String>, aliases: &Vec<&str>) -> (r: Option<usize>)
    ensures
        match r {
            Some(k) => column_for_aliases(views(lowered@), strs(aliases@)) == Some(k as int),
            None => column_for_aliases(views(lowered@), strs(aliases@)) is None,
        },
{
    let mut i: usize = 0;
    while i < aliases.len()
        invariant
            i <= aliases@.len(),
            column_for_aliases(views(lowered@), strs(aliases@).take(i as int)) is None,
        decreases aliases@.len() - i,
    {
        proof {
            assert(strs(aliases@).take(i + 1).drop_last() =~= strs(aliases@).take(i as int));
            assert(strs(aliases@).take(i + 1).last() == aliases@[i as int]@);
        }
        match find_column(lowered, aliases[i]) {
            Some(k) => {
                proof {
                    lemma_aliases_prefix(views(lowered@), strs(aliases@), i as int + 1);
                }
                return Some(k);
            },
            None => {},
        }
        i = i + 1;
    }
    assert(strs(aliases@).take(i as int) =~= strs(aliases@));
    None
}

proof fn lemma_aliases_prefix(lowered: Seq<Seq<char>>, aliases: Seq<Seq<char>>, k: int)
    requires
        0 <= k <= aliases.len(),
        column_for_aliases(lowered, aliases.take(k)) is Some,
    ensures
        column_for_aliases(lowered, aliases) == column_for_aliases(lowered, aliases.take(k)),
    decreases aliases.len() - k,
{
    if k < aliases.len() {
        assert(aliases.take(k + 1).drop_last() =~= aliases.take(k));
        lemma_aliases_prefix(lowered, aliases, k + 1);
    } else {
        assert(aliases.take(k) =~= aliases);
    }
}

fn alias_table() -> (r: Vec<(&'static str, Vec<&'static str>)>)
    ensures
        r@.map_values(|e: (&str, Vec<&str>)| (e.0@, strs(e.1@))) == column_aliases(),
{
    let r = vec![
        ("期刊名称", vec!["期刊名称", "刊名", "期刊名", "journal", "journal name", "title", "刊物名称"]),
        ("ISSN", vec!["issn", "print issn", "p-issn"]),
        ("eISSN", vec!["eissn", "e-issn", "online issn"]),
        ("影响因子", vec!["影响因子", "if", "jif", "impact factor"]),
        ("JIF分区", vec!["jif分区", "jcr分区", "quartile", "jif quartile", "jcr quartile"]),
        ("中科院分区", vec!["中科院分区", "分区", "cas", "大类分区", "小类分区"]),
        ("学科", vec!["学科", "所属学科", "subject", "category", "学科分类"]),
        ("出版社", vec!["出版社", "publisher"]),
    ];
    proof {
        let m = r@.map_values(|e: (&str, Vec<&str>)| (e.0@, strs(e.1@)));
        assert(strs(r@[0].1@) =~= column_aliases()[0].1);
        assert(strs(r@[1].1@) =~= column_aliases()[1].1);
        assert(strs(r@[2].1@) =~= column_aliases()[2].1);
        assert(strs(r@[3].1@) =~= column_aliases()[3].1);
        assert(strs(r@[4].1@) =~= column_aliases()[4].1);
        assert(strs(r@[5].1@) =~= column_aliases()[5].1);
        assert(strs(r@[6].1@) =~= column_aliases()[6].1);
        assert(strs(r@[7].1@) =~= column_aliases()[7].1);
        assert(m =~= column_aliases());
    }
    r
}

/// Recognises the columns of a resource table by their aliases: for each
/// field, the first alias that some column's trimmed, lower-cased name
/// equals or holds, and the first such column.
pub fn detect_columns(columns: &Vec<String>) -> (r: ColumnMap)
    ensures
        map_entries(r) == detected(views(columns@), column_aliases()),
{
    let mut lowered: Vec<String> = Vec::new();
    let mut i: usize = 0;
    while i < columns.len()
        invariant
            i <= columns@.len(),
            views(lowered@) == views(columns@).take(i as int).map_values(|c: Seq<char>| lowercase(trim_spec(c))),
        decreases columns@.len() - i,
    {
        let t = trim(columns[i].as_str());
        let l = to_lowercase(t.as_str());
        let ghost before = views(lowered@);
        lowered.push(l);
        proof {
            assert(views(lowered@) =~= before.push(l@));
            assert(views(columns@).take(i + 1).map_values(|c: Seq<char>| lowercase(trim_spec(c)))
                =~= views(columns@).take(i as int).map_values(|c: Seq<char>| lowercase(trim_spec(c))).push(l@));
        }
        i = i + 1;
    }
    assert(views(columns@).take(i as int) =~= views(columns@));
    let table = alias_table();
    let ghost tv = table@.map_values(|e: (&str, Vec<&str>)| (e.0@, strs(e.1@)));
    let mut entries: Vec<(String, String)> = Vec::new();
    let mut t: usize = 0;
    while t < table.len()
        invariant
            t <= table@.len(),
            tv == table@.map_values(|e: (&str, Vec<&str>)| (e.0@, strs(e.1@))),
            tv == column_aliases(),
            views(lowered@) == views(columns@).map_values(|c: Seq<char>| lowercase(trim_spec(c))),
            lowered@.len() == columns@.len(),
            entries@.map_values(|e: (String, String)| (e.0@, e.1@)) == detected(views(columns@), tv.take(t as int)),
        decreases table@.len() - t,
    {
        proof {
            assert(tv.take(t + 1).drop_last() =~= tv.take(t as int));
            assert(tv.take(t + 1).last() == tv[t as int]);
            assert(tv[t as int] == (table@[t as int].0@, strs(table@[t as int].1@)));
        }
        match find_column_for_aliases(&lowered, &table[t].1) {
            Some(k) => {
                proof {
                    lemma_column_for_aliases_range(views(lowered@), strs(table@[t as int].1@));
                }
                let ghost before = entries@.map_values(|e: (String, String)| (e.0@, e.1@));
                let e = (owned(table[t].0), owned(columns[k].as_str()));
                entries.push(e);
                proof {
                    assert(entries@.map_values(|e: (String, String)| (e.0@, e.1@)) =~= before.push((e.0@, e.1@)));
                    assert(views(columns@)[k as int] == columns@[k as int]@);
                }
            },
            None => {},
        }
        t = t + 1;
    }
    assert(tv.take(t as int) =~= tv);
    ColumnMap { entries }
}

/// A request to save a resource file.
#[derive(Clone, Debug)]
pub struct ResourceSaveRequest {
    pub source_path: String,
    pub resource_type: String,
    pub column_map: ColumnMap,
    pub notes: String,
}

/// Where a saved resource went.
#[derive(Clone, Debug)]
pub struct ResourceSaveReport {
    pub stored_path: String,
    pub backup_dir: Option<String>,
    pub message: String,
}

/// The name under which a resource file is stored: forbidden characters
/// replaced, trimmed, "未命名资源" when nothing is left.
pub fn safe_resource_name(name: &str) -> (r: String)
    ensures
        r@ == safe_name_spec(name@, "未命名资源"@),
{
    safe_name(name, "未命名资源")
}

/// The largest resource upload accepted, in bytes.
pub const MAX_RESOURCE_BYTES: usize = 52428800;

/// Refuses uploads over 50 MB.
pub fn check_resource_size(len: usize) -> (r: Result<(), String>)
    ensures
        r is Ok <==> len <= MAX_RESOURCE_BYTES,
        r matches Err(e) ==> e@ == "资源文件超过 50MB，请缩小文件后再导入。"@,
{
    if len > MAX_RESOURCE_BYTES { Err(owned("资源文件超过 50MB，请缩小文件后再导入。")) } else { Ok(()) }
}

/// The note a resource is recorded with: the notes, trimmed, after the
/// linked journal when there is one.
pub open spec fn linked_note_spec(journal_name: Seq<char>, notes: Seq<char>) -> Seq<char> {
    if is_blank_spec(journal_name) {
        trim_spec(notes)
    } else {
        "关联期刊："@ + trim_spec(journal_name) + "；"@ + trim_spec(notes)
    }
}

/// The note a resource is recorded with.
pub fn linked_note(journal_name: &str, notes: &str) -> (r: String)
    ensures
        r@ == linked_note_spec(journal_name@, notes@),
{
    if is_blank(journal_name) {
        trim(notes)
    } else {
        let mut s = cat("关联期刊：", trim(journal_name).as_str());
        append(&mut s, "；");
        append(&mut s, trim(notes).as_str());
        s
    }
}

/// The summary line added to a journal's profile for a linked resource.
pub fn linked_resource_summary(file_name: &str) -> (r: String)
    ensures
        r@ == "已关联资料："@ + file_name@,
{
    cat("已关联资料：", file_name)
}

/// How a resource reached the library.
#[derive(PartialEq, Eq, Structural, Clone, Copy, Debug)]
pub enum ResourceOrigin {
    /// Copied from a file on disk.
    File,
    /// Uploaded as bytes.
    Upload,
}

/// The reason recorded for the backup made before a resource is stored.
pub fn resource_backup_reason(origin: ResourceOrigin) -> (r: &'static str)
    ensures
        r@ == (match origin {
            ResourceOrigin::File => "resource_import"@,
            ResourceOrigin::Upload => "resource_upload"@,
        }),
{
    match origin {
        ResourceOrigin::File => "resource_import",
        ResourceOrigin::Upload => "resource_upload",
    }
}

/// The name a stored resource gets: the time stamp and the safe file name.
pub fn stored_resource_name(stamp: &str, file_name: &str) -> (r: String)
    ensures
        r@ == stamp@ + "_"@ + safe_name_spec(file_name@, "未命名资源"@),
{
    let mut name = cat(stamp, "_");
    let safe = safe_resource_name(file_name);
    append(&mut name, safe.as_str());
    name
}

/// The refusal when the resource file to copy does not exist.
pub fn missing_resource_error(path: &str) -> (r: String)
    ensures
        r@ == "资源文件不存在："@ + path@,
{
    cat("资源文件不存在：", path)
}

/// The report of a stored resource.
pub fn resource_save_report(origin: ResourceOrigin, stored_path: &str, backup_dir: &str) -> (r: ResourceSaveReport)
    ensures
        r.stored_path@ == stored_path@,
        r.backup_dir matches Some(b) && b@ == backup_dir@,
        r.message@ == (match origin {
            ResourceOrigin::File => "资源文件已保存，数据库已自动备份，导入记录已写入。"@,
            ResourceOrigin::Upload => "资源已保存并登记；关联期刊会在下次推荐前增量更新索引。"@,
        }),
{
    let message = match origin {
        ResourceOrigin::File => owned("资源文件已保存，数据库已自动备份，导入记录已写入。"),
        ResourceOrigin::Upload => owned("资源已保存并登记；关联期刊会在下次推荐前增量更新索引。"),
    };
    ResourceSaveReport { stored_path: owned(stored_path), backup_dir: Some(owned(backup_dir)), message }
}

} // verus!
