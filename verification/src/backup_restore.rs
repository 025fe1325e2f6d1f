//! Backups of the data directories, and restoring from one. Copying
//! directory trees is the caller's; here stand the names, the checks and
//! the reports.
use vstd::prelude::*;
use crate::paths::AppPaths;
use crate::text::{
    append, cat, chars_of, lemma_seq_lt_irreflexive, lemma_seq_lt_transitive, owned, seq_lt, str_lt, string_of_range,
};

verus! {

/// What a backup or export produced.
#[derive(Clone, Debug)]
pub struct BackupReport {
    pub backup_dir: String,
    pub files_copied: usize,
    pub message: String,
}

/// A backup directory found under the backups directory.
#[derive(Clone, Debug)]
pub struct BackupEntry {
    pub name: String,
    pub path: String,
    pub modified_at: String,
}

/// What a restore did.
#[derive(Clone, Debug)]
pub struct RestoreReport {
    pub restored_from: String,
    pub pre_restore_backup_dir: String,
    pub files_restored: usize,
    pub message: String,
}

/// A character of a backup reason kept as it is: ASCII letters and digits.
pub open spec fn reason_char(c: char) -> char {
    if crate::text::is_ascii_alnum(c) { c } else { '_' }
}

/// The reason with every other character replaced by `_`.
pub open spec fn mapped_reason(s: Seq<char>) -> Seq<char> {
    s.map_values(|c: char| reason_char(c))
}

/// The first index from which no leading `_` remains.
pub open spec fn first_kept(s: Seq<char>, i: int) -> int
    decreases s.len() - i,
{
    if i < s.len() && s[i] == '_' { first_kept(s, i + 1) } else { i }
}

/// The index after the last character that is not a trailing `_`.
pub open spec fn last_kept(s: Seq<char>, lo: int, j: int) -> int
    decreases j - lo,
{
    if j > lo && s[j - 1] == '_' { last_kept(s, lo, j - 1) } else { j }
}

/// The reason as a directory-name suffix: characters other than ASCII
/// letters and digits replaced by `_`, and `_` trimmed from both ends.
pub open spec fn sanitize_spec(v: Seq<char>) -> Seq<char> {
    let m = mapped_reason(v);
    let lo = first_kept(m, 0);
    m.subrange(lo, last_kept(m, lo, m.len() as int))
}

proof fn lemma_first_kept(s: Seq<char>, i: int)
    requires
        0 <= i <= s.len(),
    ensures
        i <= first_kept(s, i) <= s.len(),
    decreases s.len() - i,
{
    if i < s.len() && s[i] == '_' {
        lemma_first_kept(s, i + 1);
    }
}

/// Turns a backup reason into a directory-name suffix.
pub fn sanitize(value: &str) -> (r: String)
    ensures
        r@ == sanitize_spec(value@),
{
    let cs = chars_of(value);
    let mut m: Vec<char> = Vec::new();
    let mut i: usize = 0;
    while i < cs.len()
        invariant
            i <= cs@.len(),
            cs@ == value@,
            m@ == cs@.take(i as int).map_values(|c: char| reason_char(c)),
        decreases cs@.len() - i,
    {
        let c = cs[i];
        let k = if ('0' <= c && c <= '9') || ('a' <= c && c <= 'z') || ('A' <= c && c <= 'Z') { c } else { '_' };
        m.push(k);
        assert(m@ =~= cs@.take(i + 1).map_values(|c: char| reason_char(c)));
        i = i + 1;
    }
    assert(cs@.take(i as int) =~= cs@);
    let mut lo: usize = 0;
    while lo < m.len() && m[lo] == '_'
        invariant
            lo <= m@.len(),
            first_kept(m@, 0) == first_kept(m@, lo as int),
        decreases m@.len() - lo,
    {
        lo = lo + 1;
    }
    let mut hi: usize = m.len();
    proof {
        lemma_first_kept(m@, 0);
    }
    while hi > lo && m[hi - 1] == '_'
        invariant
            lo <= hi <= m@.len(),
            lo as int == first_kept(m@, 0),
            last_kept(m@, lo as int, m@.len() as int) == last_kept(m@, lo as int, hi as int),
        decreases hi,
    {
        hi = hi - 1;
    }
    string_of_range(&m, lo, hi)
}

/// The name of a backup directory: the time stamp, and the reason or
/// "manual" when nothing of it is left.
pub open spec fn backup_dir_name_spec(stamp: Seq<char>, reason: Seq<char>) -> Seq<char> {
    let suffix = sanitize_spec(reason);
    "backup_"@ + stamp + "_"@ + (if suffix.len() == 0 { "manual"@ } else { suffix })
}

/// The name of a backup directory made at `stamp` for `reason`.
pub fn backup_dir_name(stamp: &str, reason: &str) -> (r: String)
    ensures
        r@ == backup_dir_name_spec(stamp@, reason@),
{
    let suffix = sanitize(reason);
    let mut name = cat("backup_", stamp);
    append(&mut name, "_");
    if suffix.as_str().is_empty() {
        append(&mut name, "manual");
    } else {
        append(&mut name, suffix.as_str());
    }
    name
}

/// The directories a backup copies, in order: the database, resources,
/// indexes, embeddings, attachments, templates, exports and logs.
pub open spec fn backup_source_dirs(p: AppPaths) -> Seq<Seq<char>> {
    seq![p.db@, p.raw_resources@, p.indexes@, p.embeddings@, p.attachments@, p.templates@, p.exports@, p.logs@]
}

/// The directories a full export copies: those of a backup but the exports
/// directory itself, which receives the export.
pub open spec fn export_source_dirs(p: AppPaths) -> Seq<Seq<char>> {
    seq![p.db@, p.raw_resources@, p.indexes@, p.embeddings@, p.attachments@, p.templates@, p.logs@]
}

/// The directories a backup copies.
pub fn backup_sources(paths: &AppPaths) -> (r: Vec<String>)
    ensures
        crate::text::views(r@) == backup_source_dirs(*paths),
{
    let r = vec![
        owned(paths.db.as_str()),
        owned(paths.raw_resources.as_str()),
        owned(paths.indexes.as_str()),
        owned(paths.embeddings.as_str()),
        owned(paths.attachments.as_str()),
        owned(paths.templates.as_str()),
        owned(paths.exports.as_str()),
        owned(paths.logs.as_str()),
    ];
    assert(crate::text::views(r@) =~= backup_source_dirs(*paths));
    r
}

/// The directories a full export copies.
pub fn export_sources(paths: &AppPaths) -> (r: Vec<String>)
    ensures
        crate::text::views(r@) == export_source_dirs(*paths),
{
    let r = vec![
        owned(paths.db.as_str()),
        owned(paths.raw_resources.as_str()),
        owned(paths.indexes.as_str()),
        owned(paths.embeddings.as_str()),
        owned(paths.attachments.as_str()),
        owned(paths.templates.as_str()),
        owned(paths.logs.as_str()),
    ];
    assert(crate::text::views(r@) =~= export_source_dirs(*paths));
    r
}

/// The name of a full-export directory made at `stamp`.
pub fn export_dir_name(stamp: &str) -> (r: String)
    ensures
        r@ == "full_data_export_"@ + stamp@,
{
    cat("full_data_export_", stamp)
}

/// The report of a completed backup.
pub fn backup_report(backup_dir: &str, files_copied: usize) -> (r: BackupReport)
    ensures
        r.backup_dir@ == backup_dir@,
        r.files_copied == files_copied,
        r.message@ == "完整数据备份已创建，包含数据库、资源、附件、模板、索引和日志。"@,
{
    BackupReport {
        backup_dir: owned(backup_dir),
        files_copied,
        message: owned("完整数据备份已创建，包含数据库、资源、附件、模板、索引和日志。"),
    }
}

/// The report of a completed full export.
pub fn export_report(export_dir: &str, files_copied: usize) -> (r: BackupReport)
    ensures
        r.backup_dir@ == export_dir@,
        r.files_copied == files_copied,
        r.message@ == "全部数据已导出到 exports，可用于手动归档或迁移。"@,
{
    BackupReport {
        backup_dir: owned(export_dir),
        files_copied,
        message: owned("全部数据已导出到 exports，可用于手动归档或迁移。"),
    }
}

/// The directories a restore copies back: each backed-up directory's name
/// and where it goes.
pub open spec fn restore_targets(p: AppPaths) -> Seq<(Seq<char>, Seq<char>)> {
    seq![
        ("db"@, p.db@),
        ("raw_resources"@, p.raw_resources@),
        ("indexes"@, p.indexes@),
        ("embeddings"@, p.embeddings@),
        ("attachments"@, p.attachments@),
        ("templates"@, p.templates@),
        ("exports"@, p.exports@),
        ("logs"@, p.logs@),
    ]
}

/// Checks a restore and says what it copies. The source must be an
/// existing directory inside the backups directory (both judged by the
/// caller on canonical paths); a pre-restore backup is made before copying.
pub fn restore_from_backup(
    paths: &AppPaths,
    source_display: &str,
    source_is_dir: bool,
    within_backups: bool,
) -> (r: Result<Vec<(String, String)>, String>)
    ensures
        match r {
            Ok(plan) => source_is_dir && within_backups
                && plan@.map_values(|e: (String, String)| (e.0@, e.1@)) == restore_targets(*paths),
            Err(e) => (!source_is_dir && e@ == "备份目录不存在："@ + source_display@)
                || (source_is_dir && !within_backups && e@ == "只能从 D:\\投刊机器人\\data\\backups 内的备份恢复。"@),
        },
{
    if !source_is_dir {
        return Err(cat("备份目录不存在：", source_display));
    }
    if !within_backups {
        return Err(owned("只能从 D:\\投刊机器人\\data\\backups 内的备份恢复。"));
    }
    let plan = vec![
        (owned("db"), owned(paths.db.as_str())),
        (owned("raw_resources"), owned(paths.raw_resources.as_str())),
        (owned("indexes"), owned(paths.indexes.as_str())),
        (owned("embeddings"), owned(paths.embeddings.as_str())),
        (owned("attachments"), owned(paths.attachments.as_str())),
        (owned("templates"), owned(paths.templates.as_str())),
        (owned("exports"), owned(paths.exports.as_str())),
        (owned("logs"), owned(paths.logs.as_str())),
    ];
    assert(plan@.map_values(|e: (String, String)| (e.0@, e.1@)) =~= restore_targets(*paths));
    Ok(plan)
}

/// The report of a completed restore.
pub fn restore_report(restored_from: &str, pre_restore_backup_dir: &str, files_restored: usize) -> (r: RestoreReport)
    ensures
        r.restored_from@ == restored_from@,
        r.pre_restore_backup_dir@ == pre_restore_backup_dir@,
        r.files_restored == files_restored,
        r.message@ == "备份恢复完成；恢复前已自动创建 pre_restore 备份。"@,
{
    RestoreReport {
        restored_from: owned(restored_from),
        pre_restore_backup_dir: owned(pre_restore_backup_dir),
        files_restored,
        message: owned("备份恢复完成；恢复前已自动创建 pre_restore 备份。"),
    }
}


// ---------------------------------------------------------------------------
// Listing backups
// ---------------------------------------------------------------------------

/// Where a stable sort by descending name puts `x` among the sorted `s`:
/// before the first backup whose name sorts before its own.
pub open spec fn insert_desc(s: Seq<BackupEntry>, x: BackupEntry) -> int
    decreases s.len(),
{
    if s.len() == 0 {
        0
    } else {
        let p = insert_desc(s.drop_last(), x);
        if p < s.len() - 1 { p } else if seq_lt(s.last().name@, x.name@) { s.len() - 1 } else { s.len() as int }
    }
}

/// The backups newest name first, in the order of a stable sort.
pub open spec fn backups_by_name(s: Seq<BackupEntry>) -> Seq<BackupEntry>
    decreases s.len(),
{
    if s.len() == 0 {
        seq![]
    } else {
        let r = backups_by_name(s.drop_last());
        r.insert(insert_desc(r, s.last()), s.last())
    }
}

proof fn lemma_insert_desc_range(s: Seq<BackupEntry>, x: BackupEntry)
    ensures
        0 <= insert_desc(s, x) <= s.len(),
    decreases s.len(),
{
    if s.len() > 0 {
        lemma_insert_desc_range(s.drop_last(), x);
    }
}

proof fn lemma_insert_desc_prefix(s: Seq<BackupEntry>, x: BackupEntry, k: int)
    requires
        0 <= k <= s.len(),
        insert_desc(s.take(k), x) < k,
    ensures
        insert_desc(s, x) == insert_desc(s.take(k), x),
    decreases s.len() - k,
{
    if k < s.len() {
        assert(s.take(k + 1).drop_last() =~= s.take(k));
        lemma_insert_desc_prefix(s, x, k + 1);
    } else {
        assert(s.take(k) =~= s);
    }
}

/// Orders backups by name, the latest (greatest) first, keeping the order
/// of equal names.
pub fn list_backups(entries: Vec<BackupEntry>) -> (r: Vec<BackupEntry>)
    ensures
        r@ == backups_by_name(entries@),
{
    let mut out: Vec<BackupEntry> = Vec::new();
    let mut rest = entries;
    let ghost all = rest@;
    let n = rest.len();
    let mut i: usize = 0;
    assert(all.skip(0) =~= all);
    while i < n
        invariant
            n == all.len(),
            i <= n,
            rest@ == all.skip(i as int),
            out@ == backups_by_name(all.take(i as int)),
        decreases n - i,
    {
        let x = rest.remove(0);
        proof {
            assert(x == all[i as int]);
            assert(rest@ =~= all.skip(i + 1));
            assert(all.take(i + 1).drop_last() =~= all.take(i as int));
            assert(all.take(i + 1).last() == x);
        }
        let ghost o = out@;
        let mut j: usize = 0;
        while j < out.len() && !str_lt(out[j].name.as_str(), x.name.as_str())
            invariant
                j <= out@.len(),
                out@ == o,
                insert_desc(o.take(j as int), x) == j,
            decreases out@.len() - j,
        {
            proof {
                assert(o.take(j + 1).drop_last() =~= o.take(j as int));
                assert(o.take(j + 1).last() == o[j as int]);
            }
            j = j + 1;
        }
        proof {
            if j == o.len() {
                assert(o.take(j as int) =~= o);
            } else {
                assert(o.take(j + 1).drop_last() =~= o.take(j as int));
                assert(o.take(j + 1).last() == o[j as int]);
                lemma_insert_desc_prefix(o, x, j as int + 1);
            }
            lemma_insert_desc_range(o, x);
        }
        out.insert(j, x);
        i = i + 1;
    }
    assert(all.take(n as int) =~= all);
    out
}

// ---------------------------------------------------------------------------
// Laws of the backup listing
// ---------------------------------------------------------------------------

/// Whether `a` is listed before `b` for its name alone: its name sorts after.
pub open spec fn listed_before(a: BackupEntry, b: BackupEntry) -> bool {
    seq_lt(b.name@, a.name@)
}

proof fn lemma_insert_desc_shape(s: Seq<BackupEntry>, x: BackupEntry)
    ensures
        forall|k: int| 0 <= k < insert_desc(s, x) ==> !listed_before(x, #[trigger] s[k]),
        insert_desc(s, x) < s.len() ==> listed_before(x, s[insert_desc(s, x)]),
    decreases s.len(),
{
    if s.len() > 0 {
        lemma_insert_desc_shape(s.drop_last(), x);
        lemma_insert_desc_range(s.drop_last(), x);
        let p = insert_desc(s.drop_last(), x);
        assert forall|k: int| 0 <= k < insert_desc(s, x) implies !listed_before(x, #[trigger] s[k]) by {
            if k < s.len() - 1 {
                assert(s.drop_last()[k] == s[k]);
            }
        }
        if p < s.len() - 1 {
            assert(s.drop_last()[p] == s[p]);
        }
    }
}

/// Whether no backup is listed after one whose name sorts before its own.
pub open spec fn latest_first(s: Seq<BackupEntry>) -> bool {
    forall|i: int, j: int| 0 <= i < j < s.len() ==> !listed_before(#[trigger] s[j], #[trigger] s[i])
}

/// The backup listing puts the latest names first (no backup comes after
/// one whose name sorts before its own) and holds exactly the backups it
/// was given.
pub proof fn backups_by_name_is_sorted_permutation(s: Seq<BackupEntry>)
    ensures
        latest_first(backups_by_name(s)),
        backups_by_name(s).to_multiset() == s.to_multiset(),
    decreases s.len(),
{
    broadcast use vstd::seq_lib::to_multiset_insert, vstd::seq_lib::to_multiset_build;
    if s.len() == 0 {
        assert(s =~= Seq::<BackupEntry>::empty());
    } else {
        let r = backups_by_name(s.drop_last());
        let x = s.last();
        backups_by_name_is_sorted_permutation(s.drop_last());
        lemma_insert_desc_range(r, x);
        lemma_insert_desc_shape(r, x);
        let p = insert_desc(r, x);
        let t = r.insert(p, x);
        assert(t == backups_by_name(s));
        assert forall|i: int, j: int| 0 <= i < j < t.len() implies !listed_before(#[trigger] t[j], #[trigger] t[i]) by {
            if j < p {
                assert(t[i] == r[i] && t[j] == r[j]);
            } else if j == p {
                assert(t[j] == x && t[i] == r[i]);
            } else if i == p {
                assert(t[i] == x && t[j] == r[j - 1]);
                if listed_before(r[j - 1], x) {
                    if j - 1 == p {
                        lemma_seq_lt_transitive(x.name@, r[p].name@, x.name@);
                        lemma_seq_lt_irreflexive(x.name@);
                    } else {
                        lemma_seq_lt_transitive(r[p].name@, x.name@, r[j - 1].name@);
                    }
                }
            } else if i < p {
                assert(t[i] == r[i] && t[j] == r[j - 1]);
            } else {
                assert(t[i] == r[i - 1] && t[j] == r[j - 1]);
            }
        }
        assert(s =~= s.drop_last().push(x));
        assert(t.to_multiset() == r.to_multiset().insert(x));
        assert(s.drop_last().push(x).to_multiset() == s.drop_last().to_multiset().insert(x));
    }
}

} // verus!
