//! Bookkeeping of the TLE disk cache: where an entry is stored and whether a
//! stored entry is still fresh.  Reading and writing the files happens at the
//! program's edge.
use vstd::prelude::*;
use crate::text::{decimal, decimal_chars, lemma_decimal_roundtrip, string_from_chars};
use crate::time::{
    duration_below_days, duration_since_below_days, utc_now, UtcTimestamp, MAX_DELTA_DAYS,
};

verus! {

/// A cache entry as stored on disk (one JSON file per satellite).
#[derive(Clone, Debug)]
pub struct CachedTle {
    pub norad: u32,
    pub name: Option<String>,
    pub line1: String,
    pub line2: String,
    pub epoch_utc: UtcTimestamp,
    pub cached_at: UtcTimestamp,
}

/// TLE disk cache manager: the directory that holds the entries, the age,
/// in days, after which an entry's epoch is too old to use, and the
/// platform's path separator its file paths are joined with.
pub struct TleCache {
    cache_dir: String,
    expiration_days: i64,
    sep: char,
}

/// The file name of a cache entry: the catalog number followed by `.json`.
pub open spec fn cache_file_name(norad: u32) -> Seq<char> {
    decimal(norad as nat) + seq!['.', 'j', 's', 'o', 'n']
}

/// `PathBuf::join` of a relative file name, `sep` being the platform's
/// separator: one is added unless the directory is empty or already ends in
/// a separator (`sep`, or `'/'`, which every platform accepts).  (On Windows
/// a directory that is a bare drive prefix such as `C:` takes no separator;
/// that case is not modelled.)
pub open spec fn path_join(dir: Seq<char>, name: Seq<char>, sep: char) -> Seq<char> {
    if dir.len() == 0 || dir.last() == '/' || dir.last() == sep {
        dir + name
    } else {
        dir + seq![sep] + name
    }
}

/// `std::path::MAIN_SEPARATOR`: the separator of path components on this
/// platform, `'/'` on Unix and `'\\'` on Windows.  Which of the two depends
/// on the platform.
#[verifier::external_body]
fn main_separator() -> (r: char)
    ensures
        r == '/' || r == '\\',
{
    std::path::MAIN_SEPARATOR
}

impl TleCache {
    /// The separator is the platform's, `'/'` or `'\\'`.
    #[verifier::type_invariant]
    spec fn separator_known(&self) -> bool {
        self.sep == '/' || self.sep == '\\'
    }

    pub closed spec fn dir_view(&self) -> Seq<char> {
        self.cache_dir@
    }

    /// The separator the cache's file paths are joined with.
    pub closed spec fn sep_view(&self) -> char {
        self.sep
    }

    pub closed spec fn expiration(&self) -> i64 {
        self.expiration_days
    }

    /// The cache rooted at `cache_dir` (which the caller has created), with
    /// this platform's path separator.
    pub fn with_dir(cache_dir: String, expiration_days: i64) -> (r: TleCache)
        ensures
            r.dir_view() == cache_dir@,
            r.expiration() == expiration_days,
            r.sep_view() == '/' || r.sep_view() == '\\',
    {
        let sep = main_separator();
        TleCache { cache_dir, expiration_days, sep }
    }

    /// The separator the cache's file paths are joined with: this
    /// platform's, `'/'` or `'\\'`.
    pub fn separator(&self) -> (r: char)
        ensures
            r == self.sep_view(),
            r == '/' || r == '\\',
    {
        proof {
            use_type_invariant(self);
        }
        self.sep
    }

    pub fn cache_dir(&self) -> (r: &String)
        ensures
            r@ == self.dir_view(),
    {
        &self.cache_dir
    }

    pub fn expiration_days(&self) -> (r: i64)
        ensures
            r == self.expiration(),
    {
        self.expiration_days
    }

    /// Get the file path for a cached TLE entry: the file `<norad>.json` in
    /// the cache directory, joined with the cache's separator, this
    /// platform's (see `path_join`).
    pub fn cache_path(&self, norad: u32) -> (r: String)
        ensures
            r@ == path_join(self.dir_view(), cache_file_name(norad), self.sep_view()),
            self.sep_view() == '/' || self.sep_view() == '\\',
    {
        let sep = self.separator();
        self.cache_path_in(norad, sep)
    }

    /// The file path of a cached TLE entry when `sep` separates path
    /// components.
    pub fn cache_path_in(&self, norad: u32, sep: char) -> (r: String)
        ensures
            r@ == path_join(self.dir_view(), cache_file_name(norad), sep),
    {
        let mut name = decimal_chars(norad as u64);
        name.push('.');
        name.push('j');
        name.push('s');
        name.push('o');
        name.push('n');
        assert(name@ =~= cache_file_name(norad));
        let dir = crate::text::str_chars(self.cache_dir.as_str());
        let mut path: Vec<char> = Vec::new();
        let mut i: usize = 0;
        while i < dir.len()
            invariant
                i <= dir.len(),
                path@ == dir@.take(i as int),
            decreases dir.len() - i,
        {
            path.push(dir[i]);
            i += 1;
            assert(path@ =~= dir@.take(i as int));
        }
        assert(dir@.take(dir.len() as int) =~= dir@);
        if dir.len() > 0 && dir[dir.len() - 1] != '/' && dir[dir.len() - 1] != sep {
            path.push(sep);
        }
        let ghost base = path@;
        let mut j: usize = 0;
        while j < name.len()
            invariant
                j <= name.len(),
                path@ == base + name@.take(j as int),
            decreases name.len() - j,
        {
            path.push(name[j]);
            j += 1;
            assert(path@ =~= base + name@.take(j as int));
        }
        assert(name@.take(name.len() as int) =~= name@);
        assert(path@ =~= path_join(self.dir_view(), cache_file_name(norad), sep));
        string_from_chars(path.as_slice())
    }

    /// Whether an entry is still fresh at `now`: the age of its epoch is below
    /// the expiration threshold.
    pub open spec fn fresh_at(&self, entry: CachedTle, now: UtcTimestamp) -> bool {
        duration_below_days(now, entry.epoch_utc, self.expiration() as int)
    }

    /// Check if a cached TLE entry is still valid at `now`.
    pub fn is_valid_at(&self, entry: &CachedTle, now: UtcTimestamp) -> (r: bool)
        requires
            now.wf(),
            entry.epoch_utc.wf(),
            -MAX_DELTA_DAYS <= self.expiration() <= MAX_DELTA_DAYS,
        ensures
            r == self.fresh_at(*entry, now),
    {
        duration_since_below_days(now, entry.epoch_utc, self.expiration_days)
    }

    /// Check if a cached TLE entry is still valid based on its epoch
    ///
    /// Returns true if the TLE epoch is within the expiration threshold at
    /// the current time, false if it has expired and should be re-fetched,
    /// and false where the system clock cannot be read.
    pub fn is_valid(&self, entry: &CachedTle) -> (r: bool)
        requires
            entry.epoch_utc.wf(),
            -MAX_DELTA_DAYS <= self.expiration() <= MAX_DELTA_DAYS,
        ensures
            r ==> exists|now: UtcTimestamp| now.wf() && self.fresh_at(*entry, now),
    {
        match utc_now() {
            Some(now) => {
                let r = self.is_valid_at(entry, now);
                assert(r ==> now.wf() && self.fresh_at(*entry, now));
                r
            },
            None => false,
        }
    }
}

/// Distinct catalog numbers are stored in distinct files of a cache,
/// whatever the separator.
pub proof fn cache_paths_distinct(cache: &TleCache, a: u32, b: u32, sep: char)
    requires
        a != b,
    ensures
        path_join(cache.dir_view(), cache_file_name(a), sep) != path_join(cache.dir_view(), cache_file_name(b), sep),
{
    let dir = cache.dir_view();
    let na = cache_file_name(a);
    let nb = cache_file_name(b);
    lemma_decimal_roundtrip(a as nat);
    lemma_decimal_roundtrip(b as nat);
    if path_join(dir, na, sep) == path_join(dir, nb, sep) {
        let pre = if dir.len() == 0 || dir.last() == '/' || dir.last() == sep { dir } else { dir + seq![sep] };
        assert(path_join(dir, na, sep) == pre + na);
        assert(path_join(dir, nb, sep) == pre + nb);
        assert((pre + na).skip(pre.len() as int) =~= na);
        assert((pre + nb).skip(pre.len() as int) =~= nb);
        let da = decimal(a as nat);
        let db = decimal(b as nat);
        assert(na.len() == nb.len());
        assert(na.take(da.len() as int) =~= da);
        assert(nb.take(db.len() as int) =~= db);
        assert(da =~= db);
    }
}

/// Freshness only grows with the expiration threshold: an entry fresh under
/// a shorter threshold is fresh under any longer one.
pub proof fn freshness_monotone_in_expiration(
    short: &TleCache,
    long: &TleCache,
    entry: CachedTle,
    now: UtcTimestamp,
)
    requires
        short.expiration() <= long.expiration(),
        short.fresh_at(entry, now),
    ensures
        long.fresh_at(entry, now),
{
    assert(short.expiration() * 86_400 * 1_000_000_000 <= long.expiration() * 86_400 * 1_000_000_000)
        by (nonlinear_arith)
        requires
            short.expiration() <= long.expiration(),
    ;
}

/// Away from leap seconds, an entry whose epoch is no earlier than that of a
/// fresh entry is fresh too.
pub proof fn freshness_monotone_in_epoch(
    cache: &TleCache,
    newer: CachedTle,
    older: CachedTle,
    now: UtcTimestamp,
)
    requires
        now.nanos < 1_000_000_000,
        newer.epoch_utc.nanos < 1_000_000_000,
        older.epoch_utc.nanos < 1_000_000_000,
        !newer.epoch_utc.before(older.epoch_utc),
        cache.fresh_at(older, now),
    ensures
        cache.fresh_at(newer, now),
{
}

} // verus!
