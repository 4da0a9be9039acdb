//! The reconciled view of the movies archive: finished daily movies directly
//! under the archive root, plus at most one "today" accumulation directory
//! holding the current day's hourly clips. The directory listing itself is
//! handed in as plain values; everything decided about it is verified.

use vstd::prelude::*;
use crate::digits::i64_str_parses;
use crate::digits::parse_i64;
use crate::digits::signed_val;

verus! {

/// One entry of the today-accumulation directory, as read from disk.
#[derive(Debug)]
pub struct ChildEntry {
    pub name: String,
    pub is_file: bool,
}

/// One direct child of the archive root, as read from disk, together with
/// its own children when it is a directory (empty for files).
#[derive(Debug)]
pub struct RootEntry {
    pub name: String,
    pub is_file: bool,
    pub children: Vec<ChildEntry>,
}

pub struct ChildEntryV {
    pub name: Seq<char>,
    pub is_file: bool,
}

pub struct RootEntryV {
    pub name: Seq<char>,
    pub is_file: bool,
    pub children: Seq<ChildEntryV>,
}

impl View for ChildEntry {
    type V = ChildEntryV;

    open spec fn view(&self) -> ChildEntryV {
        ChildEntryV { name: self.name@, is_file: self.is_file }
    }
}

impl View for RootEntry {
    type V = RootEntryV;

    open spec fn view(&self) -> RootEntryV {
        RootEntryV {
            name: self.name@,
            is_file: self.is_file,
            children: self.children@.map_values(|c: ChildEntry| c@),
        }
    }
}

pub open spec fn listing_views(l: Seq<RootEntry>) -> Seq<RootEntryV> {
    l.map_values(|e: RootEntry| e@)
}

/// One movie file: its filename is the decimal timestamp of the instant its
/// recording started, carrying the video extension.
#[derive(Debug)]
pub struct Movie {
    pub filename: String,
    pub timestamp: i64,
    pub path: String,
}

pub struct MovieV {
    pub filename: Seq<char>,
    pub timestamp: int,
    pub path: Seq<char>,
}

impl View for Movie {
    type V = MovieV;

    open spec fn view(&self) -> MovieV {
        MovieV { filename: self.filename@, timestamp: self.timestamp as int, path: self.path@ }
    }
}

pub open spec fn movie_views(l: Seq<Movie>) -> Seq<MovieV> {
    l.map_values(|m: Movie| m@)
}

/// The single in-progress accumulation directory: named by the timestamp of
/// the day it collects, holding that day's hourly clips.
#[derive(Debug)]
pub struct TodayFolder {
    pub timestamp: i64,
    pub today_movies: Vec<Movie>,
    pub path: String,
}

pub struct TodayFolderV {
    pub timestamp: int,
    pub today_movies: Seq<MovieV>,
    pub path: Seq<char>,
}

impl View for TodayFolder {
    type V = TodayFolderV;

    open spec fn view(&self) -> TodayFolderV {
        TodayFolderV {
            timestamp: self.timestamp as int,
            today_movies: movie_views(self.today_movies@),
            path: self.path@,
        }
    }
}

pub open spec fn today_folder_views(o: Option<TodayFolder>) -> Option<TodayFolderV> {
    match o {
        Option::None => Option::None,
        Option::Some(t) => Option::Some(t@),
    }
}

/// The reconciled archive: finished movies plus the optional accumulation.
#[derive(Debug)]
pub struct DirStructure {
    pub movies: Vec<Movie>,
    pub today_folder: Option<TodayFolder>,
}

pub struct DirStructureV {
    pub movies: Seq<MovieV>,
    pub today_folder: Option<TodayFolderV>,
}

impl View for DirStructure {
    type V = DirStructureV;

    open spec fn view(&self) -> DirStructureV {
        DirStructureV {
            movies: movie_views(self.movies@),
            today_folder: today_folder_views(self.today_folder),
        }
    }
}

/// A second integer-named directory under the archive root indicates
/// structural corruption and is fatal.
#[derive(Clone, Copy, Debug, PartialEq, Eq, Structural)]
pub enum ScanError {
    TwoTodayFolders,
}

pub open spec fn movies_root_view() -> Seq<char> {
    "/mnt/skynet/movies"@
}

pub fn movies_folder_root() -> (r: &'static str)
    ensures
        r@ == movies_root_view(),
{
    "/mnt/skynet/movies"
}

pub open spec fn mp4_suffix() -> Seq<char> {
    ".mp4"@
}

pub open spec fn has_mp4_suffix(name: Seq<char>) -> bool {
    name.len() >= 4 && name.skip(name.len() - 4) == mp4_suffix()
}

pub open spec fn movie_stem(name: Seq<char>) -> Seq<char> {
    name.take(name.len() - 4)
}

/// A name the scan recognises as an archive movie: the video extension
/// behind a stem that reads as a decimal timestamp.
pub open spec fn is_movie_name(name: Seq<char>) -> bool {
    has_mp4_suffix(name) && i64_str_parses(movie_stem(name))
}

pub open spec fn movie_timestamp(name: Seq<char>) -> int {
    signed_val(movie_stem(name))
}

pub open spec fn path_join(dir: Seq<char>, name: Seq<char>) -> Seq<char> {
    dir + "/"@ + name
}

pub open spec fn movie_entry(dir: Seq<char>, name: Seq<char>) -> MovieV {
    MovieV { filename: name, timestamp: movie_timestamp(name), path: path_join(dir, name) }
}

/// A directory whose name reads as a timestamp: a today accumulation.
pub open spec fn is_int_dir(e: RootEntryV) -> bool {
    !e.is_file && i64_str_parses(e.name)
}

pub open spec fn child_is_movie(c: ChildEntryV) -> bool {
    c.is_file && is_movie_name(c.name)
}

/// The clips the scan collects from the accumulation directory's entries,
/// in listing order; entries violating the naming rule are skipped.
pub open spec fn child_movies_of(dir: Seq<char>, cs: Seq<ChildEntryV>) -> Seq<MovieV>
    decreases cs.len(),
{
    if cs.len() == 0 {
        Seq::empty()
    } else {
        let rest = child_movies_of(dir, cs.drop_last());
        if child_is_movie(cs.last()) {
            rest.push(movie_entry(dir, cs.last().name))
        } else {
            rest
        }
    }
}

/// The archived movies the scan collects from the root entries, in listing
/// order; entries violating the naming rule are skipped.
pub open spec fn root_movies_of(root: Seq<char>, es: Seq<RootEntryV>) -> Seq<MovieV>
    decreases es.len(),
{
    if es.len() == 0 {
        Seq::empty()
    } else {
        let rest = root_movies_of(root, es.drop_last());
        if es.last().is_file && is_movie_name(es.last().name) {
            rest.push(movie_entry(root, es.last().name))
        } else {
            rest
        }
    }
}

pub open spec fn int_dir_count(es: Seq<RootEntryV>) -> int
    decreases es.len(),
{
    if es.len() == 0 {
        0
    } else {
        int_dir_count(es.drop_last()) + if is_int_dir(es.last()) {
            1int
        } else {
            0int
        }
    }
}

pub open spec fn today_folder_entry(root: Seq<char>, e: RootEntryV) -> TodayFolderV {
    TodayFolderV {
        timestamp: signed_val(e.name),
        path: path_join(root, e.name),
        today_movies: child_movies_of(path_join(root, e.name), e.children),
    }
}

/// The accumulation the scan reports: the first integer-named directory.
pub open spec fn today_folder_of(root: Seq<char>, es: Seq<RootEntryV>) -> Option<TodayFolderV>
    decreases es.len(),
{
    if es.len() == 0 {
        Option::None
    } else {
        let rest = today_folder_of(root, es.drop_last());
        if rest is Some {
            rest
        } else if is_int_dir(es.last()) {
            Option::Some(today_folder_entry(root, es.last()))
        } else {
            Option::None
        }
    }
}

/// Most recent clip first: the order the accumulation keeps its clips in.
pub open spec fn clips_sorted_desc(ms: Seq<MovieV>) -> bool {
    forall|i: int, j: int| 0 <= i < j < ms.len() ==> ms[i].timestamp >= ms[j].timestamp
}

/// Oldest clip first: chronological playback order.
pub open spec fn clips_sorted_asc(ms: Seq<MovieV>) -> bool {
    forall|i: int, j: int| 0 <= i < j < ms.len() ==> ms[i].timestamp <= ms[j].timestamp
}

/// What the scanned accumulation keeps of the directory it was read from:
/// the directory's identity, and exactly its qualifying clips, reordered
/// by descending timestamp.
pub open spec fn scanned_folder_matches(t: TodayFolderV, t0: TodayFolderV) -> bool {
    &&& t.timestamp == t0.timestamp
    &&& t.path == t0.path
    &&& t.today_movies.len() == t0.today_movies.len()
    &&& t.today_movies.to_multiset() == t0.today_movies.to_multiset()
    &&& clips_sorted_desc(t.today_movies)
}

pub proof fn lemma_int_dir_count_nonneg(es: Seq<RootEntryV>)
    ensures
        int_dir_count(es) >= 0,
    decreases es.len(),
{
    if es.len() > 0 {
        lemma_int_dir_count_nonneg(es.drop_last());
    }
}

pub proof fn lemma_int_dir_count_take_le(es: Seq<RootEntryV>, k: int)
    requires
        0 <= k <= es.len(),
    ensures
        int_dir_count(es.take(k)) <= int_dir_count(es),
    decreases es.len(),
{
    if k < es.len() {
        assert(es.drop_last().take(k) =~= es.take(k));
        lemma_int_dir_count_take_le(es.drop_last(), k);
    } else {
        assert(es.take(k) =~= es);
    }
}

/// The name under which the rename-based publish path makes a movie of
/// timestamp `ts` visible in the archive root.
pub open spec fn published_name(ts: int) -> Seq<char> {
    crate::digits::int_rep(ts) + mp4_suffix()
}

/// A published name always scans back to its own timestamp, exactly.
pub proof fn lemma_published_name_round_trip(ts: i64)
    ensures
        is_movie_name(published_name(ts as int)),
        movie_timestamp(published_name(ts as int)) == ts as int,
{
    let name = published_name(ts as int);
    crate::digits::lemma_int_rep_parses(ts as int);
    reveal_strlit(".mp4");
    assert(name.skip(name.len() - 4) =~= mp4_suffix());
    assert(movie_stem(name) =~= crate::digits::int_rep(ts as int));
}

/// Publishing a movie and immediately scanning yields exactly one archived
/// movie entry, carrying the published timestamp.
pub proof fn lemma_publish_then_scan(root: Seq<char>, e: RootEntryV, ts: i64)
    requires
        e.is_file,
        e.name == published_name(ts as int),
    ensures
        root_movies_of(root, seq![e]) == seq![movie_entry(root, e.name)],
        movie_entry(root, e.name).timestamp == ts as int,
{
    lemma_published_name_round_trip(ts);
    assert(seq![e].drop_last() =~= Seq::<RootEntryV>::empty());
    assert(seq![e].last() == e);
    assert(root_movies_of(root, Seq::<RootEntryV>::empty()) == Seq::<MovieV>::empty());
    assert(root_movies_of(root, seq![e]) =~= seq![movie_entry(root, e.name)]);
}

/// The names of the well-named movie files of a listing, in listing order.
pub open spec fn movie_file_names(es: Seq<RootEntryV>) -> Seq<Seq<char>>
    decreases es.len(),
{
    if es.len() == 0 {
        Seq::empty()
    } else {
        let rest = movie_file_names(es.drop_last());
        if es.last().is_file && is_movie_name(es.last().name) {
            rest.push(es.last().name)
        } else {
            rest
        }
    }
}

/// The scan's movie list is exactly the per-file mapping: one entry per
/// well-named movie file, in listing order — none missing, none extra.
pub proof fn lemma_scan_movies_exact(root: Seq<char>, es: Seq<RootEntryV>)
    ensures
        root_movies_of(root, es) == movie_file_names(es).map_values(
            |n: Seq<char>| movie_entry(root, n),
        ),
    decreases es.len(),
{
    let f = |n: Seq<char>| movie_entry(root, n);
    if es.len() == 0 {
        assert(root_movies_of(root, es) =~= movie_file_names(es).map_values(f));
    } else {
        lemma_scan_movies_exact(root, es.drop_last());
        assert(root_movies_of(root, es) =~= movie_file_names(es).map_values(f));
    }
}

/// The names of the well-named clip files of an accumulation's children,
/// in listing order.
pub open spec fn clip_names(cs: Seq<ChildEntryV>) -> Seq<Seq<char>>
    decreases cs.len(),
{
    if cs.len() == 0 {
        Seq::empty()
    } else {
        let rest = clip_names(cs.drop_last());
        if child_is_movie(cs.last()) {
            rest.push(cs.last().name)
        } else {
            rest
        }
    }
}

/// The clips a directory offers are exactly the per-file mapping of its
/// well-named children.
pub proof fn lemma_child_movies_exact(dir: Seq<char>, cs: Seq<ChildEntryV>)
    ensures
        child_movies_of(dir, cs) == clip_names(cs).map_values(
            |n: Seq<char>| movie_entry(dir, n),
        ),
    decreases cs.len(),
{
    let f = |n: Seq<char>| movie_entry(dir, n);
    if cs.len() == 0 {
        assert(child_movies_of(dir, cs) =~= clip_names(cs).map_values(f));
    } else {
        lemma_child_movies_exact(dir, cs.drop_last());
        assert(child_movies_of(dir, cs) =~= clip_names(cs).map_values(f));
    }
}

/// A well-named movie file anywhere in a listing contributes its entry to
/// the scan, whatever else the listing holds.
pub proof fn lemma_scan_contains_movie(root: Seq<char>, es: Seq<RootEntryV>, i: int)
    requires
        0 <= i < es.len(),
        es[i].is_file,
        is_movie_name(es[i].name),
    ensures
        exists|k: int|
            0 <= k < root_movies_of(root, es).len() && root_movies_of(root, es)[k]
                == movie_entry(root, es[i].name),
    decreases es.len(),
{
    if i == es.len() - 1 {
        assert(es.last() == es[i]);
        let r = root_movies_of(root, es);
        assert(r.last() == movie_entry(root, es[i].name));
        assert(0 <= r.len() - 1 < r.len() && r[r.len() - 1] == movie_entry(root, es[i].name));
    } else {
        assert(es.drop_last()[i] == es[i]);
        lemma_scan_contains_movie(root, es.drop_last(), i);
        let rest = root_movies_of(root, es.drop_last());
        let k = choose|k: int|
            0 <= k < rest.len() && rest[k] == movie_entry(root, es.drop_last()[i].name);
        assert(root_movies_of(root, es)[k] == movie_entry(root, es[i].name));
    }
}

/// A listing made of well-named movie files and at most one integer-named
/// directory scans to exactly one archived movie per file, and reports the
/// accumulation exactly when the directory is present.
pub proof fn lemma_scan_counts(root: Seq<char>, es: Seq<RootEntryV>)
    requires
        forall|i: int|
            0 <= i < es.len() ==> (#[trigger] es[i].is_file && is_movie_name(es[i].name))
                || is_int_dir(es[i]),
        int_dir_count(es) <= 1,
    ensures
        root_movies_of(root, es).len() == es.len() - int_dir_count(es),
        int_dir_count(es) == 0 <==> today_folder_of(root, es) is None,
    decreases es.len(),
{
    if es.len() > 0 {
        let prefix = es.drop_last();
        assert forall|i: int| 0 <= i < prefix.len() implies (#[trigger] prefix[i].is_file
            && is_movie_name(prefix[i].name)) || is_int_dir(prefix[i]) by {
            assert(prefix[i] == es[i]);
        }
        lemma_int_dir_count_nonneg(prefix);
        lemma_scan_counts(root, prefix);
        assert(es[es.len() - 1] == es.last());
    }
}
/// Recognise the video extension.
pub fn has_mp4_ext(name: &str) -> (b: bool)
    ensures
        b == has_mp4_suffix(name@),
{
    let n = name.unicode_len();
    proof {
        reveal_strlit(".mp4");
    }
    if n < 4 {
        return false;
    }
    let suffix_ok = name.get_char(n - 4) == '.' && name.get_char(n - 3) == 'm' && name.get_char(
        n - 2,
    ) == 'p' && name.get_char(n - 1) == '4';
    proof {
        if has_mp4_suffix(name@) {
            assert(name@.skip(n - 4)[0] == name@[n - 4]);
            assert(name@.skip(n - 4)[1] == name@[n - 3]);
            assert(name@.skip(n - 4)[2] == name@[n - 2]);
            assert(name@.skip(n - 4)[3] == name@[n - 1]);
        }
        if suffix_ok {
            assert(name@.skip(n - 4) =~= mp4_suffix());
        }
    }
    suffix_ok
}

/// The name with its video extension removed.
pub fn strip_mp4_ext<'a>(name: &'a str) -> (stem: &'a str)
    requires
        has_mp4_suffix(name@),
    ensures
        stem@ == movie_stem(name@),
{
    let n = name.unicode_len();
    let stem = name.substring_char(0, n - 4);
    proof {
        assert(stem@ =~= movie_stem(name@));
    }
    stem
}

/// Recognise an archive movie name and read its timestamp.
pub fn movie_name_timestamp(name: &str) -> (r: Option<i64>)
    ensures
        match r {
            Some(ts) => is_movie_name(name@) && ts as int == movie_timestamp(name@),
            None => !is_movie_name(name@),
        },
{
    if !has_mp4_ext(name) {
        return None;
    }
    let stem = strip_mp4_ext(name);
    parse_i64(stem)
}

/// `dir` and `name` joined by the path separator.
pub fn join_path(dir: &str, name: &str) -> (r: String)
    ensures
        r@ == path_join(dir@, name@),
{
    let mut r = String::from_str(dir);
    r.append("/");
    r.append(name);
    r
}

/// Inserting a clip at its descending-order position keeps the clip list
/// sorted and adds exactly that clip.
proof fn lemma_clip_insertion(s: Seq<Movie>, p: int, m: Movie)
    requires
        0 <= p <= s.len(),
        clips_sorted_desc(movie_views(s)),
        forall|k: int| 0 <= k < p ==> s[k].timestamp >= m.timestamp,
        p < s.len() ==> s[p].timestamp < m.timestamp,
    ensures
        movie_views(s.insert(p, m)) == movie_views(s).insert(p, m@),
        movie_views(s.insert(p, m)).len() == movie_views(s).len() + 1,
        clips_sorted_desc(movie_views(s.insert(p, m))),
        movie_views(s.insert(p, m)).to_multiset() == movie_views(s).to_multiset().insert(m@),
{
    broadcast use vstd::seq_lib::to_multiset_build;
    broadcast use vstd::seq_lib::lemma_multiset_commutative;
    broadcast use vstd::multiset::group_multiset_axioms;

    let mv = movie_views(s);
    let mvn = mv.insert(p, m@);
    s.insert_ensures(p, m);
    mv.insert_ensures(p, m@);
    assert forall|i: int| 0 <= i < s.len() + 1 implies movie_views(s.insert(p, m))[i]
        == mvn[i] by {
        if i < p {
            assert(s.insert(p, m)[i] == s[i]);
        } else if i == p {
            assert(s.insert(p, m)[i] == m);
        } else {
            assert(s.insert(p, m)[i] == s[i - 1]);
        }
    }
    assert(movie_views(s.insert(p, m)) =~= mvn);
    assert forall|a: int, b: int| 0 <= a < b < mvn.len() implies mvn[a].timestamp
        >= mvn[b].timestamp by {
        if a < p {
            assert(mvn[a] == mv[a]);
            assert(mv[a].timestamp >= m.timestamp as int);
        }
        if b > p {
            assert(mvn[b] == mv[b - 1]);
            assert(b - 1 >= p);
            if p < s.len() {
                assert(mv[b - 1].timestamp <= mv[p].timestamp);
                assert(mv[p].timestamp < m.timestamp as int);
            }
        }
    }
    let left = mv.subrange(0, p);
    let right = mv.subrange(p, mv.len() as int);
    assert(mv =~= left + right);
    assert(mvn == left.push(m@) + right);
    assert(mv.to_multiset() =~= left.to_multiset().add(right.to_multiset()));
    assert(mvn.to_multiset() =~= left.to_multiset().insert(m@).add(right.to_multiset()));
    assert(left.to_multiset().insert(m@).add(right.to_multiset()) =~= left.to_multiset().add(
        right.to_multiset(),
    ).insert(m@));
    assert(mvn.to_multiset() =~= mv.to_multiset().insert(m@));
}

/// Reconcile a listing of the archive root into the in-memory view.
///
/// Files whose name is a decimal timestamp with the video extension become
/// archived movies; the single integer-named directory becomes the today
/// accumulation, its children classified by the same file rule and kept
/// ordered by descending timestamp; anything else is silently skipped. A
/// second integer-named directory is a fatal consistency violation.
pub fn get_dir_structure(listing: &Vec<RootEntry>) -> (r: Result<DirStructure, ScanError>)
    ensures
        match r {
            Ok(ds) => {
                &&& int_dir_count(listing_views(listing@)) <= 1
                &&& ds@.movies == root_movies_of(movies_root_view(), listing_views(listing@))
                &&& (match (
                    ds@.today_folder,
                    today_folder_of(movies_root_view(), listing_views(listing@)),
                ) {
                    (Some(t), Some(t0)) => scanned_folder_matches(t, t0),
                    (None, None) => true,
                    _ => false,
                })
            },
            Err(e) => {
                &&& e == ScanError::TwoTodayFolders
                &&& int_dir_count(listing_views(listing@)) >= 2
            },
        },
{
    let root = movies_folder_root();
    let ghost lv = listing_views(listing@);
    let mut movies: Vec<Movie> = Vec::new();
    let mut today: Option<TodayFolder> = None;
    let n = listing.len();
    let mut i: usize = 0;
    while i < n
        invariant
            0 <= i <= n,
            n == listing.len(),
            lv == listing_views(listing@),
            root@ == movies_root_view(),
            movie_views(movies@) == root_movies_of(movies_root_view(), lv.take(i as int)),
            (match (
                today_folder_views(today),
                today_folder_of(movies_root_view(), lv.take(i as int)),
            ) {
                (Some(t), Some(t0)) => scanned_folder_matches(t, t0),
                (None, None) => true,
                _ => false,
            }),
            int_dir_count(lv.take(i as int)) == if today is Some {
                1int
            } else {
                0int
            },
        decreases n - i,
    {
        let e = &listing[i];
        proof {
            assert(lv[i as int] == e@);
            assert(lv.take(i + 1).drop_last() =~= lv.take(i as int));
            assert(lv.take(i + 1).last() == lv[i as int]);
        }
        if e.is_file {
            match movie_name_timestamp(e.name.as_str()) {
                Some(ts) => {
                    let path = join_path(root, e.name.as_str());
                    let m = Movie { filename: e.name.clone(), timestamp: ts, path };
                    proof {
                        assert(m@ == movie_entry(movies_root_view(), lv[i as int].name));
                    }
                    movies.push(m);
                    proof {
                        assert(movie_views(movies@) =~= root_movies_of(
                            movies_root_view(),
                            lv.take(i + 1),
                        ));
                    }
                },
                None => {
                    proof {
                        assert(movie_views(movies@) =~= root_movies_of(
                            movies_root_view(),
                            lv.take(i + 1),
                        ));
                    }
                },
            }
        } else {
            match parse_i64(e.name.as_str()) {
                Some(ts) => {
                    if today.is_some() {
                        proof {
                            assert(int_dir_count(lv.take(i + 1)) == 2);
                            lemma_int_dir_count_take_le(lv, i + 1);
                        }
                        return Err(ScanError::TwoTodayFolders);
                    }
                    let dirpath = join_path(root, e.name.as_str());
                    let ghost dv = path_join(movies_root_view(), lv[i as int].name);
                    let ghost cv = lv[i as int].children;
                    let mut clips: Vec<Movie> = Vec::new();
                    let m = e.children.len();
                    let mut j: usize = 0;
                    proof {
                        assert(movie_views(clips@) =~= Seq::<MovieV>::empty());
                        assert(child_movies_of(dv, cv.take(0)) =~= Seq::<MovieV>::empty());
                        assert(movie_views(clips@).to_multiset() =~= child_movies_of(
                            dv,
                            cv.take(0),
                        ).to_multiset());
                    }
                    while j < m
                        invariant
                            0 <= j <= m,
                            m == e.children.len(),
                            cv == e.children@.map_values(|c: ChildEntry| c@),
                            dirpath@ == dv,
                            movie_views(clips@).len() == child_movies_of(dv, cv.take(j as int)).len(),
                            movie_views(clips@).to_multiset() == child_movies_of(
                                dv,
                                cv.take(j as int),
                            ).to_multiset(),
                            clips_sorted_desc(movie_views(clips@)),
                        decreases m - j,
                    {
                        let c = &e.children[j];
                        proof {
                            assert(cv[j as int] == c@);
                            assert(cv.take(j + 1).drop_last() =~= cv.take(j as int));
                            assert(cv.take(j + 1).last() == cv[j as int]);
                        }
                        if c.is_file {
                            match movie_name_timestamp(c.name.as_str()) {
                                Some(cts) => {
                                    let cpath = join_path(dirpath.as_str(), c.name.as_str());
                                    let clip = Movie {
                                        filename: c.name.clone(),
                                        timestamp: cts,
                                        path: cpath,
                                    };
                                    proof {
                                        assert(clip@ == movie_entry(dv, cv[j as int].name));
                                    }
                                    let mut p: usize = 0;
                                    while p < clips.len() && clips[p].timestamp >= cts
                                        invariant
                                            0 <= p <= clips@.len(),
                                            forall|k: int|
                                                0 <= k < p ==> clips@[k].timestamp
                                                    >= clip.timestamp,
                                            clip.timestamp == cts,
                                        decreases clips@.len() - p,
                                    {
                                        p = p + 1;
                                    }
                                    let ghost pre = clips@;
                                    clips.insert(p, clip);
                                    proof {
                                        lemma_clip_insertion(pre, p as int, clip);
                                        assert(movie_views(clips@).to_multiset()
                                            =~= child_movies_of(dv, cv.take(j + 1)).to_multiset())
                                            by {
                                            broadcast use vstd::seq_lib::to_multiset_build;

                                            assert(child_movies_of(dv, cv.take(j + 1))
                                                == child_movies_of(dv, cv.take(j as int)).push(
                                                movie_entry(dv, cv[j as int].name),
                                            ));
                                        }
                                    }
                                },
                                None => {
                                    proof {
                                        assert(child_movies_of(dv, cv.take(j + 1))
                                            == child_movies_of(dv, cv.take(j as int)));
                                    }
                                },
                            }
                        } else {
                            proof {
                                assert(child_movies_of(dv, cv.take(j + 1)) == child_movies_of(
                                    dv,
                                    cv.take(j as int),
                                ));
                            }
                        }
                        j = j + 1;
                    }
                    proof {
                        assert(cv.take(m as int) =~= cv);
                    }
                    let folder = TodayFolder { timestamp: ts, today_movies: clips, path: dirpath };
                    proof {
                        assert(scanned_folder_matches(
                            folder@,
                            today_folder_entry(movies_root_view(), lv[i as int]),
                        ));
                    }
                    today = Some(folder);
                    proof {
                        assert(movie_views(movies@) =~= root_movies_of(
                            movies_root_view(),
                            lv.take(i + 1),
                        ));
                    }
                },
                None => {
                    proof {
                        assert(movie_views(movies@) =~= root_movies_of(
                            movies_root_view(),
                            lv.take(i + 1),
                        ));
                    }
                },
            }
        }
        i = i + 1;
    }
    proof {
        assert(lv.take(n as int) =~= lv);
    }
    Ok(DirStructure { movies, today_folder: today })
}

} // verus!
