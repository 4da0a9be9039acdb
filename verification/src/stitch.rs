//! Day-rollover stitching: the ordered concatenation list of the day's
//! hourly clips and the scratch/destination paths of the stitched movie.
//! The reconciled archive lists clips most-recent-first, so the list is
//! written back-to-front to preserve chronological playback order.

use vstd::prelude::*;
use crate::archive::clips_sorted_asc;
use crate::archive::clips_sorted_desc;
use crate::archive::mp4_suffix;
use crate::archive::movie_views;
use crate::archive::path_join;
use crate::archive::DirStructure;
use crate::archive::MovieV;
use crate::archive::TodayFolder;
use crate::archive::join_path;
use crate::digits::i64_to_string;
use crate::digits::int_rep;
use crate::encoder::encoding_folder;
use crate::encoder::encoding_folder_view;

verus! {

/// One line of the encoder's concatenation list.
pub open spec fn file_line(path: Seq<char>) -> Seq<char> {
    "file '"@ + path + "'\n"@
}

/// The whole concatenation list: one line per clip, last clip first —
/// the reversal of the most-recent-first clip order.
pub open spec fn concat_lines(ms: Seq<MovieV>) -> Seq<char>
    decreases ms.len(),
{
    if ms.len() == 0 {
        Seq::empty()
    } else {
        file_line(ms.last().path) + concat_lines(ms.drop_last())
    }
}

proof fn lemma_concat_lines_cons(x: MovieV, s: Seq<MovieV>)
    ensures
        concat_lines(seq![x] + s) == concat_lines(s) + file_line(x.path),
    decreases s.len(),
{
    let t = seq![x] + s;
    if s.len() == 0 {
        assert(t =~= seq![x]);
        assert(t.last() == x);
        assert(t.drop_last() =~= Seq::<MovieV>::empty());
        assert(concat_lines(Seq::<MovieV>::empty()) == Seq::<char>::empty());
        assert(concat_lines(s) == Seq::<char>::empty());
        assert(concat_lines(t) =~= concat_lines(s) + file_line(x.path));
    } else {
        assert(t.drop_last() =~= seq![x] + s.drop_last());
        assert(t.last() == s.last());
        lemma_concat_lines_cons(x, s.drop_last());
        assert(concat_lines(t) =~= concat_lines(s) + file_line(x.path));
    }
}

/// The concatenation list read front to back: one line per clip, first
/// clip first.
pub open spec fn lines_fwd(ms: Seq<MovieV>) -> Seq<char>
    decreases ms.len(),
{
    if ms.len() == 0 {
        Seq::empty()
    } else {
        file_line(ms.first().path) + lines_fwd(ms.drop_first())
    }
}

/// Writing the clips back-to-front is the same as writing their reversal
/// front-to-back.
pub proof fn lemma_concat_lines_reverse(ms: Seq<MovieV>)
    ensures
        concat_lines(ms) == lines_fwd(ms.reverse()),
    decreases ms.len(),
{
    if ms.len() == 0 {
        assert(ms.reverse() =~= Seq::<MovieV>::empty());
        assert(concat_lines(ms) =~= lines_fwd(ms.reverse()));
    } else {
        lemma_concat_lines_reverse(ms.drop_last());
        assert(ms.reverse().first() == ms.last());
        assert(ms.reverse().drop_first() =~= ms.drop_last().reverse());
        assert(concat_lines(ms) =~= lines_fwd(ms.reverse()));
    }
}

/// The stitched day plays chronologically: with the clips ordered
/// most-recent-first, as the scan reports them, the concatenation list
/// names them oldest first.
pub proof fn lemma_stitch_list_chronological(ms: Seq<MovieV>)
    requires
        clips_sorted_desc(ms),
    ensures
        concat_lines(ms) == lines_fwd(ms.reverse()),
        clips_sorted_asc(ms.reverse()),
{
    lemma_concat_lines_reverse(ms);
    assert forall|i: int, j: int| 0 <= i < j < ms.reverse().len() implies ms.reverse()[i].timestamp
        <= ms.reverse()[j].timestamp by {
        assert(ms.reverse()[i] == ms[ms.len() - 1 - i]);
        assert(ms.reverse()[j] == ms[ms.len() - 1 - j]);
    }
}

/// Write the concatenation list of the accumulation's clips.
pub fn build_concat_list(folder: &TodayFolder) -> (r: String)
    ensures
        r@ == concat_lines(folder@.today_movies),
{
    let mut r = String::new();
    let n = folder.today_movies.len();
    let ghost ms = movie_views(folder.today_movies@);
    proof {
        assert(ms.skip(n as int) =~= Seq::<MovieV>::empty());
    }
    let mut k: usize = n;
    while k > 0
        invariant
            0 <= k <= n,
            n == folder.today_movies.len(),
            ms == movie_views(folder.today_movies@),
            r@ == concat_lines(ms.skip(k as int)),
        decreases k,
    {
        k = k - 1;
        let m = &folder.today_movies[k];
        proof {
            assert(m@ == ms[k as int]);
        }
        r.append("file '");
        r.append(m.path.as_str());
        r.append("'\n");
        proof {
            assert(ms.skip(k as int) =~= seq![ms[k as int]] + ms.skip(k as int + 1));
            lemma_concat_lines_cons(ms[k as int], ms.skip(k as int + 1));
            assert(r@ =~= concat_lines(ms.skip(k as int)));
        }
    }
    proof {
        assert(ms.skip(0) =~= ms);
    }
    r
}

/// Everything one stitch run needs: the list-file contents, the scratch
/// output the encoder writes, the directory the clips came from, and the
/// archive-root destination the output is renamed to on success.
pub struct StitchPlan {
    pub list_file_contents: String,
    pub out_path: String,
    pub dest_path: String,
    pub today_folder_path: String,
}

/// Plan the stitch of the current accumulation. With no accumulation there
/// is nothing to do; an accumulation holding no clips is also left exactly
/// as it is — stitching it could only publish a missing or zero-length
/// archive entry, so the empty case is explicitly a no-op.
pub fn stitch(structure: &DirStructure) -> (r: Option<StitchPlan>)
    ensures
        match structure.today_folder {
            None => r is None,
            Some(tf) => {
                if tf@.today_movies.len() == 0 {
                    r is None
                } else {
                    r matches Some(p) && {
                        &&& p.list_file_contents@ == concat_lines(tf@.today_movies)
                        &&& p.list_file_contents@ == lines_fwd(tf@.today_movies.reverse())
                        &&& (clips_sorted_desc(tf@.today_movies) ==> clips_sorted_asc(
                            tf@.today_movies.reverse(),
                        ))
                        &&& p.out_path@ == path_join(
                            encoding_folder_view(),
                            int_rep(tf.timestamp as int) + mp4_suffix(),
                        )
                        &&& p.dest_path@ == tf.path@ + mp4_suffix()
                        &&& p.today_folder_path@ == tf.path@
                    }
                }
            },
        },
{
    match &structure.today_folder {
        None => None,
        Some(folder) => {
            if folder.today_movies.len() == 0 {
                return None;
            }
            let list_file_contents = build_concat_list(folder);
            proof {
                lemma_concat_lines_reverse(folder@.today_movies);
                if clips_sorted_desc(folder@.today_movies) {
                    lemma_stitch_list_chronological(folder@.today_movies);
                }
            }
            let mut out_name = i64_to_string(folder.timestamp);
            out_name.append(".mp4");
            let out_path = join_path(encoding_folder(), out_name.as_str());
            let mut dest_path = folder.path.clone();
            dest_path.append(".mp4");
            let today_folder_path = folder.path.clone();
            Some(StitchPlan { list_file_contents, out_path, dest_path, today_folder_path })
        },
    }
}

} // verus!
