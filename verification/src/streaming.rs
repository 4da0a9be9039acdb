//! The listing the streaming front end serves: finished daily movies and
//! the current day's hourly clips, each carrying a human-readable label of
//! its local calendar date. The calendar fields come from the one trusted
//! conversion in `clock`; everything built from them is verified.

use vstd::prelude::*;
use crate::archive::has_mp4_ext;
use crate::archive::has_mp4_suffix;
use crate::archive::join_path;
use crate::archive::listing_views;
use crate::archive::movie_stem;
use crate::archive::path_join;
use crate::archive::strip_mp4_ext;
use crate::archive::ChildEntryV;
use crate::archive::RootEntry;
use crate::archive::RootEntryV;
use crate::clock::local_civil_of_timestamp;
use crate::clock::CivilDate;
use crate::clock::MAX_CIVIL_TIMESTAMP;
use crate::digits::dec_rep;
use crate::digits::dec_val;
use crate::digits::digits_part;
use crate::digits::parse_u64;
use crate::digits::u64_str_parses;
use crate::digits::u64_to_string;

verus! {

/// Why a movie filename was refused.
#[derive(Clone, Copy, Debug, PartialEq, Eq, Structural)]
pub enum FilenameError {
    NotMp4,
    NotATimestamp,
    TimestampOutOfRange,
}

/// A streaming-layer movie name: the video extension behind a stem that
/// reads as an unsigned decimal timestamp.
pub open spec fn streaming_name_parses(name: Seq<char>) -> bool {
    has_mp4_suffix(name) && u64_str_parses(movie_stem(name))
}

pub open spec fn streaming_name_ts(name: Seq<char>) -> int {
    dec_val(digits_part(movie_stem(name)))
}

/// A name the streaming layer accepts outright: well-formed and denoting a
/// timestamp the calendar conversion covers.
pub open spec fn streaming_name_ok(name: Seq<char>) -> bool {
    streaming_name_parses(name) && streaming_name_ts(name) <= MAX_CIVIL_TIMESTAMP
}

/// Exactly which refusal a bad name earns.
pub open spec fn filename_error_of(name: Seq<char>) -> FilenameError {
    if !has_mp4_suffix(name) {
        FilenameError::NotMp4
    } else if !u64_str_parses(movie_stem(name)) {
        FilenameError::NotATimestamp
    } else {
        FilenameError::TimestampOutOfRange
    }
}

/// Read a movie filename as the local calendar date of its timestamp.
pub fn filename_to_date(filename: &str) -> (r: Result<CivilDate, FilenameError>)
    ensures
        match r {
            Ok(d) => {
                &&& streaming_name_ok(filename@)
                &&& d.wf()
                &&& d.timestamp as int == streaming_name_ts(filename@)
            },
            Err(e) => !streaming_name_ok(filename@) && e == filename_error_of(filename@),
        },
{
    if !has_mp4_ext(filename) {
        return Err(FilenameError::NotMp4);
    }
    let stem = strip_mp4_ext(filename);
    match parse_u64(stem) {
        None => Err(FilenameError::NotATimestamp),
        Some(ts) => {
            if ts > MAX_CIVIL_TIMESTAMP as u64 {
                Err(FilenameError::TimestampOutOfRange)
            } else {
                Ok(local_civil_of_timestamp(ts as i64))
            }
        },
    }
}

/// A name published by the rename path reads back, through the streaming
/// layer too, to exactly the timestamp it was published under.
pub proof fn lemma_published_name_streams_back(ts: i64)
    requires
        0 <= ts <= MAX_CIVIL_TIMESTAMP,
    ensures
        streaming_name_ok(crate::archive::published_name(ts as int)),
        streaming_name_ts(crate::archive::published_name(ts as int)) == ts as int,
{
    let name = crate::archive::published_name(ts as int);
    crate::digits::lemma_dec_rep_parses_u64(ts as nat);
    reveal_strlit(".mp4");
    assert(name.skip(name.len() - 4) =~= crate::archive::mp4_suffix());
    assert(movie_stem(name) =~= crate::digits::dec_rep(ts as nat));
}

/// One of today's hourly clips, labelled by its local hour.
#[derive(Clone, Debug)]
pub struct TodayMovie {
    pub hour: u32,
    pub filepath: String,
    pub formatted_date: String,
}

/// One finished movie, labelled by its local day-month-year.
#[derive(Clone, Debug)]
pub struct PastDayMovies {
    pub formatted_date: String,
    pub timestamp: u64,
    pub filename: String,
}

/// The hour label: the hour in decimal with an 'h' behind it.
pub open spec fn hour_label(h: nat) -> Seq<char> {
    dec_rep(h) + "h"@
}

/// The date label: day, month and year in decimal, dash-separated.
pub open spec fn dmy_label(d: CivilDate) -> Seq<char> {
    dec_rep(d.day as nat) + "-"@ + dec_rep(d.month as nat) + "-"@ + dec_rep(d.year as nat)
}

/// A qualifying directory entry paired with the directory it sits in.
pub struct NamePair {
    pub dir: Seq<char>,
    pub name: Seq<char>,
}

/// What a listed clip promises about the name it was built from: the exact
/// relative path, and labels of the local calendar date of the name's
/// timestamp (for some well-formed reading of that instant).
pub open spec fn today_entry_ok(m: TodayMovie, p: NamePair) -> bool {
    &&& streaming_name_ok(p.name)
    &&& m.filepath@ == path_join(p.dir, p.name)
    &&& exists|d: CivilDate|
        {
            &&& d.wf()
            &&& d.timestamp as int == streaming_name_ts(p.name)
            &&& m.hour == d.hour
            &&& m.formatted_date@ == hour_label(d.hour as nat)
        }
}

/// What a listed finished movie promises about its name: name and
/// timestamp preserved exactly, and a date label of that instant.
pub open spec fn past_entry_ok(m: PastDayMovies, name: Seq<char>) -> bool {
    &&& streaming_name_ok(name)
    &&& m.filename@ == name
    &&& m.timestamp as int == streaming_name_ts(name)
    &&& exists|d: CivilDate|
        {
            &&& d.wf()
            &&& d.timestamp as int == streaming_name_ts(name)
            &&& m.formatted_date@ == dmy_label(d)
        }
}

/// Build the clip record of a calendar reading of one name.
pub fn today_movie_of(date: &CivilDate, folder_name: &str, filename: &str) -> (m: TodayMovie)
    requires
        date.wf(),
    ensures
        m.hour == date.hour,
        m.filepath@ == path_join(folder_name@, filename@),
        m.formatted_date@ == hour_label(date.hour as nat),
{
    let mut formatted = u64_to_string(date.hour as u64);
    formatted.append("h");
    let filepath = join_path(folder_name, filename);
    TodayMovie { hour: date.hour, filepath, formatted_date: formatted }
}

/// Build the finished-movie record of a calendar reading of one name.
pub fn past_day_movies_of(date: &CivilDate, filename: &str) -> (m: PastDayMovies)
    requires
        date.wf(),
    ensures
        m.filename@ == filename@,
        m.timestamp as int == date.timestamp as int,
        m.formatted_date@ == dmy_label(*date),
{
    let mut formatted = u64_to_string(date.day as u64);
    formatted.append("-");
    let month = u64_to_string(date.month as u64);
    formatted.append(month.as_str());
    formatted.append("-");
    let year = u64_to_string(date.year as u64);
    formatted.append(year.as_str());
    assert(formatted@ =~= dmy_label(*date));
    PastDayMovies {
        formatted_date: formatted,
        timestamp: date.timestamp as u64,
        filename: String::from_str(filename),
    }
}

impl TodayMovie {
    pub fn new(folder_name: &str, filename: &str) -> (r: Result<TodayMovie, FilenameError>)
        ensures
            match r {
                Ok(m) => today_entry_ok(m, NamePair { dir: folder_name@, name: filename@ }),
                Err(e) => !streaming_name_ok(filename@) && e == filename_error_of(filename@),
            },
    {
        match filename_to_date(filename) {
            Err(e) => Err(e),
            Ok(date) => {
                let m = today_movie_of(&date, folder_name, filename);
                Ok(m)
            },
        }
    }
}

impl PastDayMovies {
    pub fn new(filename: &str) -> (r: Result<PastDayMovies, FilenameError>)
        ensures
            match r {
                Ok(m) => past_entry_ok(m, filename@),
                Err(e) => !streaming_name_ok(filename@) && e == filename_error_of(filename@),
            },
    {
        match filename_to_date(filename) {
            Err(e) => Err(e),
            Ok(date) => {
                let m = past_day_movies_of(&date, filename);
                Ok(m)
            },
        }
    }
}

/// Everything currently streamable.
#[derive(Clone, Debug)]
pub struct AvailableMovies {
    pub past_day_movies: Vec<PastDayMovies>,
    pub today_movies: Vec<TodayMovie>,
}

pub open spec fn root_file_qualifies(e: RootEntryV) -> bool {
    e.is_file && has_mp4_suffix(e.name)
}

pub open spec fn child_qualifies(c: ChildEntryV) -> bool {
    c.is_file && has_mp4_suffix(c.name)
}

/// The names of the finished movies a listing offers, in listing order.
pub open spec fn past_names_of(es: Seq<RootEntryV>) -> Seq<Seq<char>>
    decreases es.len(),
{
    if es.len() == 0 {
        Seq::empty()
    } else {
        let rest = past_names_of(es.drop_last());
        if root_file_qualifies(es.last()) {
            rest.push(es.last().name)
        } else {
            rest
        }
    }
}

pub open spec fn child_pairs(dir: Seq<char>, cs: Seq<ChildEntryV>) -> Seq<NamePair>
    decreases cs.len(),
{
    if cs.len() == 0 {
        Seq::empty()
    } else {
        let rest = child_pairs(dir, cs.drop_last());
        if child_qualifies(cs.last()) {
            rest.push(NamePair { dir: dir, name: cs.last().name })
        } else {
            rest
        }
    }
}

/// The clips a listing offers: each directory's qualifying children, the
/// directories in listing order and each one's children in listing order.
pub open spec fn today_pairs_of(es: Seq<RootEntryV>) -> Seq<NamePair>
    decreases es.len(),
{
    if es.len() == 0 {
        Seq::empty()
    } else {
        let rest = today_pairs_of(es.drop_last());
        if !es.last().is_file {
            rest + child_pairs(es.last().name, es.last().children)
        } else {
            rest
        }
    }
}

/// List everything streamable in a listing of the archive root: qualifying
/// files become finished movies, every directory's qualifying children
/// become clips; the first qualifying name that does not read as an
/// in-range timestamp is the error returned.
pub fn dir_curr_files(listing: &Vec<RootEntry>) -> (r: Result<AvailableMovies, FilenameError>)
    ensures
        match r {
            Ok(av) => {
                &&& av.past_day_movies@.len() == past_names_of(listing_views(listing@)).len()
                &&& forall|k: int|
                    0 <= k < av.past_day_movies@.len() ==> past_entry_ok(
                        #[trigger] av.past_day_movies@[k],
                        past_names_of(listing_views(listing@))[k],
                    )
                &&& av.today_movies@.len() == today_pairs_of(listing_views(listing@)).len()
                &&& forall|k: int|
                    0 <= k < av.today_movies@.len() ==> today_entry_ok(
                        #[trigger] av.today_movies@[k],
                        today_pairs_of(listing_views(listing@))[k],
                    )
            },
            Err(e) => exists|i: int|
                {
                    &&& 0 <= i < listing_views(listing@).len()
                    &&& {
                        ||| {
                            &&& root_file_qualifies(#[trigger] listing_views(listing@)[i])
                            &&& !streaming_name_ok(listing_views(listing@)[i].name)
                            &&& e == filename_error_of(listing_views(listing@)[i].name)
                        }
                        ||| {
                            &&& !listing_views(listing@)[i].is_file
                            &&& exists|j: int|
                                {
                                    &&& 0 <= j < listing_views(listing@)[i].children.len()
                                    &&& child_qualifies(
                                        #[trigger] listing_views(listing@)[i].children[j],
                                    )
                                    &&& !streaming_name_ok(
                                        listing_views(listing@)[i].children[j].name,
                                    )
                                    &&& e == filename_error_of(
                                        listing_views(listing@)[i].children[j].name,
                                    )
                                }
                        }
                    }
                },
        },
{
    let ghost lv = listing_views(listing@);
    let mut past: Vec<PastDayMovies> = Vec::new();
    let mut todays: Vec<TodayMovie> = Vec::new();
    let n = listing.len();
    let mut i: usize = 0;
    while i < n
        invariant
            0 <= i <= n,
            n == listing.len(),
            lv == listing_views(listing@),
            past@.len() == past_names_of(lv.take(i as int)).len(),
            forall|k: int|
                0 <= k < past@.len() ==> past_entry_ok(
                    #[trigger] past@[k],
                    past_names_of(lv.take(i as int))[k],
                ),
            todays@.len() == today_pairs_of(lv.take(i as int)).len(),
            forall|k: int|
                0 <= k < todays@.len() ==> today_entry_ok(
                    #[trigger] todays@[k],
                    today_pairs_of(lv.take(i as int))[k],
                ),
        decreases n - i,
    {
        let e = &listing[i];
        proof {
            assert(lv[i as int] == e@);
            assert(lv.take(i + 1).drop_last() =~= lv.take(i as int));
            assert(lv.take(i + 1).last() == lv[i as int]);
        }
        if e.is_file {
            if has_mp4_ext(e.name.as_str()) {
                match PastDayMovies::new(e.name.as_str()) {
                    Err(err) => {
                        proof {
                            assert(root_file_qualifies(lv[i as int]));
                            assert(lv[i as int].name == e.name@);
                        }
                        return Err(err);
                    },
                    Ok(m) => {
                        past.push(m);
                        proof {
                            assert(past_names_of(lv.take(i + 1)) =~= past_names_of(
                                lv.take(i as int),
                            ).push(lv[i as int].name));
                        }
                    },
                }
            } else {
                proof {
                    assert(past_names_of(lv.take(i + 1)) =~= past_names_of(lv.take(i as int)));
                }
            }
            proof {
                assert(today_pairs_of(lv.take(i + 1)) =~= today_pairs_of(lv.take(i as int)));
            }
        } else {
            proof {
                assert(past_names_of(lv.take(i + 1)) =~= past_names_of(lv.take(i as int)));
            }
            let ghost dir_name = lv[i as int].name;
            let ghost cv = lv[i as int].children;
            let ghost base = today_pairs_of(lv.take(i as int));
            let m = e.children.len();
            let mut j: usize = 0;
            proof {
                assert(cv.take(0) =~= Seq::<ChildEntryV>::empty());
                assert(child_pairs(dir_name, cv.take(0)) =~= Seq::<NamePair>::empty());
            }
            while j < m
                invariant
                    0 <= j <= m,
                    0 <= i < n,
                    n == listing.len(),
                    lv == listing_views(listing@),
                    e@ == lv[i as int],
                    !e.is_file,
                    m == e.children.len(),
                    cv == e.children@.map_values(|c: crate::archive::ChildEntry| c@),
                    dir_name == e@.name,
                    todays@.len() == base.len() + child_pairs(dir_name, cv.take(j as int)).len(),
                    forall|k: int|
                        0 <= k < base.len() ==> today_entry_ok(#[trigger] todays@[k], base[k]),
                    forall|k: int|
                        base.len() <= k < todays@.len() ==> today_entry_ok(
                            #[trigger] todays@[k],
                            child_pairs(dir_name, cv.take(j as int))[k - base.len()],
                        ),
                decreases m - j,
            {
                let c = &e.children[j];
                proof {
                    assert(cv[j as int] == c@);
                    assert(cv.take(j + 1).drop_last() =~= cv.take(j as int));
                    assert(cv.take(j + 1).last() == cv[j as int]);
                }
                if c.is_file {
                    if has_mp4_ext(c.name.as_str()) {
                        match TodayMovie::new(e.name.as_str(), c.name.as_str()) {
                            Err(err) => {
                                proof {
                                    assert(!lv[i as int].is_file);
                                    assert(child_qualifies(lv[i as int].children[j as int]));
                                    assert(lv[i as int].children[j as int].name == c.name@);
                                }
                                return Err(err);
                            },
                            Ok(tm) => {
                                todays.push(tm);
                                proof {
                                    assert(child_pairs(dir_name, cv.take(j + 1)) =~= child_pairs(
                                        dir_name,
                                        cv.take(j as int),
                                    ).push(NamePair { dir: dir_name, name: cv[j as int].name }));
                                }
                            },
                        }
                    } else {
                        proof {
                            assert(child_pairs(dir_name, cv.take(j + 1)) =~= child_pairs(
                                dir_name,
                                cv.take(j as int),
                            ));
                        }
                    }
                } else {
                    proof {
                        assert(child_pairs(dir_name, cv.take(j + 1)) =~= child_pairs(
                            dir_name,
                            cv.take(j as int),
                        ));
                    }
                }
                j = j + 1;
            }
            proof {
                assert(cv.take(m as int) =~= cv);
                assert(today_pairs_of(lv.take(i + 1)) =~= base + child_pairs(dir_name, cv));
            }
        }
        i = i + 1;
    }
    proof {
        assert(lv.take(n as int) =~= lv);
    }
    Ok(AvailableMovies { past_day_movies: past, today_movies: todays })
}

} // verus!
