//! The marker-line extractor: scan captured job output, most recent line
//! first, for a marker phrase followed by a path, and offer a deterministic
//! convention-based guess as a fallback. The extractor only proposes
//! candidate paths; whether a candidate exists on disk is checked by the
//! caller and handed back as plain booleans, so the selection itself is
//! verified.

use vstd::prelude::*;

use crate::log::LogLine;
use crate::log::LogLineV;
use crate::text::first_occ;
use crate::text::lemma_first_occ;
use crate::text::find_sub;
use crate::text::trim;
use crate::text::trim_v;
use crate::text::last_idx_of;
use crate::text::lemma_last_idx_of;
use crate::text::find_last;

verus! {

/// The text a marker line carries after the first occurrence of the marker,
/// up to the next occurrence if there is one, trimmed; nothing when the
/// marker does not occur.
pub open spec fn marker_payload_v(line: Seq<char>, marker: Seq<char>) -> Option<Seq<char>> {
    let i = first_occ(line, marker);
    if i < 0 {
        None
    } else {
        let rest = line.skip(i + marker.len());
        let j = first_occ(rest, marker);
        let seg = if j < 0 {
            rest
        } else {
            rest.take(j)
        };
        Some(trim_v(seg))
    }
}

/// Extract the payload after a marker phrase, if the marker occurs in the
/// line.
pub fn marker_payload(line: &str, marker: &str) -> (r: Option<String>)
    ensures
        r.deep_view() == marker_payload_v(line@, marker@),
{
    let n = line.unicode_len();
    let mlen = marker.unicode_len();
    match find_sub(line, marker) {
        None => None,
        Some(i) => {
            proof {
                lemma_first_occ(line@, marker@);
            }
            let rest: &str = line.substring_char(i + mlen, n);
            proof {
                assert(rest@ =~= line@.skip(i + mlen));
            }
            let seg: &str = match find_sub(rest, marker) {
                Some(j) => {
                    proof {
                        lemma_first_occ(rest@, marker@);
                    }
                    rest.substring_char(0, j)
                },
                None => rest,
            };
            proof {
                assert(seg@ =~= (if first_occ(rest@, marker@) < 0 {
                    rest@
                } else {
                    rest@.take(first_occ(rest@, marker@))
                }));
            }
            Some(trim(seg))
        },
    }
}

/// The candidate paths one line contributes: the payload of the completion
/// announcement marker, then the payload of the output-directory marker.
pub open spec fn line_candidates_v(text: Seq<char>) -> Seq<Seq<char>> {
    let c1 = match marker_payload_v(text, "Output dir:"@) {
        Some(p) => seq![p],
        None => Seq::<Seq<char>>::empty(),
    };
    let c2 = match marker_payload_v(text, "Script generation complete:"@) {
        Some(p) => seq![p],
        None => Seq::<Seq<char>>::empty(),
    };
    c1 + c2
}

/// Candidates of the first `i` lines, scanned most recent first.
pub open spec fn candidates_from(texts: Seq<Seq<char>>, i: int) -> Seq<Seq<char>>
    decreases i,
{
    if i <= 0 {
        Seq::empty()
    } else {
        line_candidates_v(texts[i - 1]) + candidates_from(texts, i - 1)
    }
}

/// The texts of a sequence of log lines.
pub open spec fn texts_of(lines: Seq<LogLineV>) -> Seq<Seq<char>> {
    lines.map_values(|l: LogLineV| l.text)
}

/// All candidate paths of a captured log, most recent line first.
pub open spec fn candidates_v(lines: Seq<LogLineV>) -> Seq<Seq<char>> {
    candidates_from(texts_of(lines), lines.len() as int)
}

/// Scan the log, most recent line first, for marker lines and collect the
/// paths they announce, in scan order.
pub fn work_dir_candidates(log: &Vec<LogLine>) -> (r: Vec<String>)
    ensures
        r.deep_view() == candidates_v(log.deep_view()),
{
    let ghost texts = texts_of(log.deep_view());
    let mut r: Vec<String> = Vec::new();
    let n = log.len();
    let mut i: usize = n;
    proof {
        assert(r.deep_view() + candidates_from(texts, i as int) =~= candidates_v(log.deep_view()));
    }
    while i > 0
        invariant
            0 <= i <= n,
            n == log@.len(),
            texts == texts_of(log.deep_view()),
            r.deep_view() + candidates_from(texts, i as int) =~= candidates_v(log.deep_view()),
        decreases i,
    {
        i = i - 1;
        let ghost r_before = r.deep_view();
        if let Some(p) = marker_payload(log[i].text.as_str(), "Output dir:") {
            r.push(p);
        }
        let ghost r_mid = r.deep_view();
        if let Some(p) = marker_payload(log[i].text.as_str(), "Script generation complete:") {
            r.push(p);
        }
        proof {
            assert(texts[i as int] == log.deep_view()[i as int].text);
            assert(r_mid =~= r_before + (match marker_payload_v(texts[i as int], "Output dir:"@) {
                Some(p) => seq![p],
                None => Seq::<Seq<char>>::empty(),
            }));
            assert(r.deep_view() =~= r_mid + (match marker_payload_v(
                texts[i as int],
                "Script generation complete:"@,
            ) {
                Some(p) => seq![p],
                None => Seq::<Seq<char>>::empty(),
            }));
            assert(r.deep_view() =~= r_before + line_candidates_v(texts[i as int]));
            assert(r.deep_view() + candidates_from(texts, i as int) =~= candidates_v(
                log.deep_view(),
            ));
        }
    }
    proof {
        assert(r.deep_view() + candidates_from(texts, 0) =~= r.deep_view());
    }
    r
}

/// Pick the first candidate whose existence the caller confirmed: `exists`
/// holds, position by position, whether the corresponding candidate was found
/// on disk.
pub fn select_existing(cands: &Vec<String>, exists: &Vec<bool>) -> (r: Option<String>)
    requires
        exists@.len() == cands@.len(),
    ensures
        match r {
            Some(s) => exists|i: int|
                0 <= i < exists@.len() && exists@[i] && (forall|j: int| 0 <= j < i ==> !exists@[j])
                    && s@ == cands.deep_view()[i],
            None => forall|i: int| 0 <= i < exists@.len() ==> !exists@[i],
        },
{
    let n = cands.len();
    let mut i: usize = 0;
    while i < n
        invariant
            0 <= i <= n,
            n == cands@.len(),
            exists@.len() == cands@.len(),
            forall|j: int| 0 <= j < i ==> !exists@[j],
        decreases n - i,
    {
        if exists[i] {
            let s = cands[i].clone();
            return Some(s);
        }
        i = i + 1;
    }
    None
}

/// The file name of a path: everything after the last slash.
pub open spec fn base_name_v(p: Seq<char>) -> Seq<char> {
    p.skip(last_idx_of(p, '/') + 1)
}

/// The stem of a path's file name: the name up to its last dot, except that
/// a name whose only dot is leading is kept whole.
pub open spec fn file_stem_v(p: Seq<char>) -> Seq<char> {
    let name = base_name_v(p);
    let d = last_idx_of(name, '.');
    if d <= 0 {
        name
    } else {
        name.take(d)
    }
}

/// Extract the stem of a path's file name.
pub fn file_stem(p: &str) -> (r: String)
    ensures
        r@ == file_stem_v(p@),
{
    let n = p.unicode_len();
    proof {
        lemma_last_idx_of(p@, '/');
    }
    let start = match find_last(p, '/') {
        Some(i) => i + 1,
        None => 0,
    };
    let name: &str = p.substring_char(start, n);
    proof {
        assert(name@ =~= base_name_v(p@));
        lemma_last_idx_of(name@, '.');
    }
    let nlen = name.unicode_len();
    let end = match find_last(name, '.') {
        Some(j) => if j > 0 {
            j
        } else {
            nlen
        },
        None => nlen,
    };
    let r = String::from_str(name.substring_char(0, end));
    proof {
        assert(name@.take(name@.len() as int) =~= name@);
        assert(r@ =~= file_stem_v(p@));
    }
    r
}

/// The convention-based fallback guess for a job's working directory, built
/// from the input document's name and the current date.
pub open spec fn expected_work_dir_v(pdf: Seq<char>, today: Seq<char>) -> Seq<char> {
    "data/output/podcast/"@ + today + "_"@ + file_stem_v(pdf)
}

/// Build the fallback working-directory guess.
pub fn expected_work_dir(pdf: &str, today: &str) -> (r: String)
    ensures
        r@ == expected_work_dir_v(pdf@, today@),
{
    let mut s = String::from_str("data/output/podcast/");
    s.append(today);
    s.append("_");
    s.append(file_stem(pdf).as_str());
    proof {
        assert(s@ =~= expected_work_dir_v(pdf@, today@));
    }
    s
}

} // verus!
