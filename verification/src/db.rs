//! The local database: the files that make it up, when a bundled catalogue
//! is copied in, which columns an older database lacks, and reading the
//! stored schema version. Opening and changing the database is the
//! caller's.
use vstd::prelude::*;
use crate::text::{append, cat, chars_of, str_eq, views};

verus! {

/// The schema version this library writes.
pub const CURRENT_SCHEMA_VERSION: i64 = 8;

/// The database file and its write-ahead log and shared-memory companions.
pub fn sqlite_family_paths(database_file: &str) -> (r: Vec<String>)
    ensures
        views(r@) == seq![database_file@, database_file@ + "-wal"@, database_file@ + "-shm"@],
{
    let r = vec![crate::text::owned(database_file), cat(database_file, "-wal"), cat(database_file, "-shm")];
    assert(views(r@) =~= seq![database_file@, database_file@ + "-wal"@, database_file@ + "-shm"@]);
    r
}

/// Whether the bundled catalogue is copied in: there is one, and the
/// database is missing or holds no journal.
pub fn should_seed(seed_available: bool, database_exists: bool, database_has_journals: bool) -> (r: bool)
    ensures
        r == (seed_available && (!database_exists || !database_has_journals)),
{
    seed_available && (!database_exists || !database_has_journals)
}

/// The directory an empty database is saved to before the catalogue
/// replaces it.
pub fn empty_database_backup_name(stamp: u64) -> (r: String)
    ensures
        r@ == "empty_db_before_seed_"@ + crate::text::decimal(stamp as nat),
{
    cat("empty_db_before_seed_", crate::text::decimal_u64(stamp).as_str())
}

/// Whether a table's columns lack `column`.
pub fn column_missing(columns: &Vec<String>, column: &str) -> (r: bool)
    ensures
        r == !views(columns@).contains(column@),
{
    !crate::text::string_in(columns, column)
}

/// The statement that lists a table's columns.
pub fn table_info_sql(table: &str) -> (r: String)
    ensures
        r@ == "PRAGMA table_info("@ + table@ + ")"@,
{
    let mut s = cat("PRAGMA table_info(", table);
    append(&mut s, ")");
    s
}

/// The statement that adds a column to a table.
pub fn add_column_sql(table: &str, column: &str, definition: &str) -> (r: String)
    ensures
        r@ == "ALTER TABLE "@ + table@ + " ADD COLUMN "@ + column@ + " "@ + definition@,
{
    let mut s = cat("ALTER TABLE ", table);
    append(&mut s, " ADD COLUMN ");
    append(&mut s, column);
    append(&mut s, " ");
    append(&mut s, definition);
    s
}

/// The columns that later versions added, each with its table and type, in
/// the order they are ensured.
pub open spec fn added_columns() -> Seq<(Seq<char>, Seq<char>, Seq<char>)> {
    seq![
        ("journals"@, "grade"@, "TEXT"@),
        ("journals"@, "oa_detail"@, "TEXT"@),
        ("journals"@, "jcr_rank_detail"@, "TEXT"@),
        ("rag_chunks"@, "embedding_json"@, "TEXT"@),
        ("journal_user_profiles"@, "rejection_reason"@, "TEXT"@),
        ("journal_user_profiles"@, "suitable_topics"@, "TEXT"@),
        ("journal_user_profiles"@, "avoid_reason"@, "TEXT"@),
        ("journal_user_profiles"@, "article_topics"@, "TEXT"@),
        ("journal_user_profiles"@, "submission_guidelines"@, "TEXT"@),
    ]
}

/// The columns that later versions added.
pub fn later_columns() -> (r: Vec<(&'static str, &'static str, &'static str)>)
    ensures
        r@.map_values(|c: (&str, &str, &str)| (c.0@, c.1@, c.2@)) == added_columns(),
{
    let r = vec![
        ("journals", "grade", "TEXT"),
        ("journals", "oa_detail", "TEXT"),
        ("journals", "jcr_rank_detail", "TEXT"),
        ("rag_chunks", "embedding_json", "TEXT"),
        ("journal_user_profiles", "rejection_reason", "TEXT"),
        ("journal_user_profiles", "suitable_topics", "TEXT"),
        ("journal_user_profiles", "avoid_reason", "TEXT"),
        ("journal_user_profiles", "article_topics", "TEXT"),
        ("journal_user_profiles", "submission_guidelines", "TEXT"),
    ];
    assert(r@.map_values(|c: (&str, &str, &str)| (c.0@, c.1@, c.2@)) =~= added_columns());
    r
}

/// The value of a decimal digit character.
pub open spec fn digit_value(c: char) -> int {
    (c as u32) as int - 48
}

/// The number a run of decimal digits stands for.
pub open spec fn digits_value(s: Seq<char>) -> int
    decreases s.len(),
{
    if s.len() == 0 { 0 } else { digits_value(s.drop_last()) * 10 + digit_value(s.last()) }
}

/// Whether every character is a decimal digit.
pub open spec fn all_digits(s: Seq<char>) -> bool {
    forall|i: int| 0 <= i < s.len() ==> '0' <= #[trigger] s[i] && s[i] <= '9'
}

/// What `str::parse::<i64>` accepts: an optional sign and at least one
/// digit, within the range of `i64`; the number it stands for.
pub open spec fn parse_i64_spec(s: Seq<char>) -> Option<int> {
    let negative = s.len() > 0 && s[0] == '-';
    let signed = s.len() > 0 && (s[0] == '-' || s[0] == '+');
    let digits = if signed { s.drop_first() } else { s };
    if digits.len() == 0 || !all_digits(digits) {
        None
    } else {
        let v = if negative { -digits_value(digits) } else { digits_value(digits) };
        if i64::MIN <= v <= i64::MAX { Some(v) } else { None }
    }
}

proof fn lemma_digits_value_nonneg(s: Seq<char>)
    requires
        all_digits(s),
    ensures
        digits_value(s) >= 0,
    decreases s.len(),
{
    if s.len() > 0 {
        assert(all_digits(s.drop_last())) by {
            assert forall|i: int| 0 <= i < s.drop_last().len() implies '0' <= #[trigger] s.drop_last()[i] && s.drop_last()[i] <= '9' by {
                assert(s.drop_last()[i] == s[i]);
            }
        }
        lemma_digits_value_nonneg(s.drop_last());
    }
}

proof fn lemma_digits_value_grows(s: Seq<char>, k: int)
    requires
        all_digits(s),
        0 <= k <= s.len(),
    ensures
        digits_value(s.take(k)) <= digits_value(s),
    decreases s.len() - k,
{
    if k < s.len() {
        lemma_digits_value_grows(s, k + 1);
        assert(s.take(k + 1).drop_last() =~= s.take(k));
        assert(all_digits(s.take(k))) by {
            assert forall|i: int| 0 <= i < s.take(k).len() implies '0' <= #[trigger] s.take(k)[i] && s.take(k)[i] <= '9' by {
                assert(s.take(k)[i] == s[i]);
            }
        }
        lemma_digits_value_nonneg(s.take(k));
        assert(s.take(k + 1).last() == s[k]);
    } else {
        assert(s.take(k) =~= s);
    }
}

proof fn lemma_fits(acc: int, d: int, limit: int)
    requires
        0 <= d <= 9,
        d <= limit,
        0 <= acc <= (limit - d) / 10,
    ensures
        acc * 10 + d <= limit,
{
    assert(acc * 10 <= ((limit - d) / 10) * 10) by (nonlinear_arith)
        requires
            0 <= acc <= (limit - d) / 10,
    ;
    assert(((limit - d) / 10) * 10 <= limit - d) by (nonlinear_arith)
        requires
            limit - d >= 0,
    ;
}

proof fn lemma_exceeds(acc: int, d: int, limit: int)
    requires
        0 <= d <= 9,
        d <= limit,
        acc > (limit - d) / 10,
    ensures
        acc * 10 + d > limit,
{
    assert(acc * 10 >= ((limit - d) / 10 + 1) * 10) by (nonlinear_arith)
        requires
            acc >= (limit - d) / 10 + 1,
    ;
    assert(((limit - d) / 10 + 1) * 10 > limit - d) by (nonlinear_arith)
        requires
            limit - d >= 0,
    ;
}

/// The schema version stored as text: its number, or 0 when it is not a
/// number of `i64`'s range.
pub fn schema_version_from(value: &str) -> (r: i64)
    ensures
        r as int == (match parse_i64_spec(value@) { Some(v) => v, None => 0 }),
{
    let cs = chars_of(value);
    let n = cs.len();
    if n == 0 {
        return 0;
    }
    let negative = cs[0] == '-';
    let start: usize = if cs[0] == '-' || cs[0] == '+' { 1 } else { 0 };
    let ghost digits = if start == 1 { cs@.drop_first() } else { cs@ };
    assert(digits =~= cs@.skip(start as int));
    if start == n {
        return 0;
    }
    let limit: u64 = if negative { 9223372036854775808 } else { 9223372036854775807 };
    let mut acc: u64 = 0;
    let mut i: usize = start;
    assert(digits.take(0) =~= Seq::<char>::empty());
    while i < n
        invariant
            start <= i <= n == cs@.len(),
            cs@ == value@,
            digits == cs@.skip(start as int),
            limit == (if negative { 9223372036854775808u64 } else { 9223372036854775807u64 }),
            negative == (value@.len() > 0 && value@[0] == '-'),
            digits == (if value@.len() > 0 && (value@[0] == '-' || value@[0] == '+') { value@.drop_first() } else { value@ }),
            all_digits(digits.take(i - start)),
            acc as int == digits_value(digits.take(i - start)),
            acc <= limit,
        decreases n - i,
    {
        let c = cs[i];
        proof {
            assert(digits[i - start] == c);
            assert(digits.take(i - start + 1).drop_last() =~= digits.take(i - start));
            assert(digits.take(i - start + 1).last() == c);
        }
        if c < '0' || c > '9' {
            proof {
                assert(!all_digits(digits));
                assert(parse_i64_spec(value@) is None);
            }
            return 0;
        }
        let d = (c as u32 - 48) as u64;
        proof {
            assert(all_digits(digits.take(i - start + 1))) by {
                assert forall|m: int| 0 <= m < digits.take(i - start + 1).len() implies
                    '0' <= #[trigger] digits.take(i - start + 1)[m] && digits.take(i - start + 1)[m] <= '9' by {
                    if m < i - start {
                        assert(digits.take(i - start + 1)[m] == digits.take(i - start)[m]);
                    }
                }
            }
        }
        if acc > (limit - d) / 10 {
            proof {
                lemma_exceeds(acc as int, d as int, limit as int);
                assert(digit_value(c) == d as int);
                assert(digits_value(digits.take(i - start + 1)) == acc * 10 + d);
                if all_digits(digits) {
                    lemma_digits_value_grows(digits, i - start + 1);
                }
                assert(parse_i64_spec(value@) is None);
            }
            return 0;
        }
        proof {
            lemma_fits(acc as int, d as int, limit as int);
        }
        acc = acc * 10 + d;
        i = i + 1;
    }
    assert(digits.take(n - start) =~= digits);
    if negative {
        if acc == 9223372036854775808 {
            i64::MIN
        } else {
            -(acc as i64)
        }
    } else {
        acc as i64
    }
}

} // verus!
