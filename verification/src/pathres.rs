//! Resolution of a percent-encoded request path against the served root.
//!
//! The encoded segment is decoded, split on `/`, and normalized: empty and
//! `.` segments vanish, `..` pops the previous segment, and a `..` that
//! would climb above the served root is rejected outright. The resolved
//! path is therefore always the root followed by plain, dot-free segments,
//! so it can never name anything outside the root.
use vstd::prelude::*;
use crate::ErrorKind;
use crate::strutil::chars_to_string;
use crate::strutil::string_to_chars;

verus! {

/// What percent-decoding (followed by UTF-8 validation) makes of a string;
/// absent exactly when the decoded bytes are not well-formed UTF-8.
pub uninterp spec fn percent_decode_spec(s: Seq<char>) -> Option<Seq<char>>;

/// Whether a string holds a `%`, the only character percent-decoding acts on.
pub open spec fn has_percent(s: Seq<char>) -> bool {
    exists|i: int| 0 <= i < s.len() && s[i] == '%'
}

/// Relies on `percent_encoding::percent_decode_str` and
/// `PercentDecode::decode_utf8`: every `%` followed by two hex digits
/// becomes the named byte, all other bytes pass through unchanged, and the
/// result is checked to be well-formed UTF-8. A string with no `%` is
/// returned as it came.
#[verifier::external_body]
fn percent_decode(s: &str) -> (r: Option<String>)
    ensures
        r is Some <==> percent_decode_spec(s@) is Some,
        r matches Some(d) ==> Some(d@) == percent_decode_spec(s@) && (!has_percent(s@) ==> d@
            == s@),
        r is None ==> has_percent(s@),
{
    match percent_encoding::percent_decode_str(s).decode_utf8() {
        Ok(decoded) => Some(decoded.into_owned()),
        Err(_) => None,
    }
}

/// The segments of a path, split on `/`. Splitting the empty string gives
/// one empty segment, as splitting always yields one segment more than
/// there are separators.
pub open spec fn split_segments(s: Seq<char>) -> Seq<Seq<char>>
    decreases s.len(),
{
    if s.len() == 0 {
        seq![Seq::<char>::empty()]
    } else {
        let init = split_segments(s.drop_last());
        if s.last() == '/' {
            init.push(Seq::<char>::empty())
        } else {
            init.drop_last().push(init.last().push(s.last()))
        }
    }
}

pub proof fn lemma_split_nonempty(s: Seq<char>)
    ensures
        split_segments(s).len() >= 1,
    decreases s.len(),
{
    if s.len() > 0 {
        lemma_split_nonempty(s.drop_last());
    }
}

/// Lexical normalization of a segment list: empty and `.` segments are
/// dropped, `..` removes the segment before it, and a `..` with nothing
/// left to remove means the path climbs out of the root: no result.
pub open spec fn normalize_segments(segs: Seq<Seq<char>>) -> Option<Seq<Seq<char>>>
    decreases segs.len(),
{
    if segs.len() == 0 {
        Some(Seq::<Seq<char>>::empty())
    } else {
        match normalize_segments(segs.drop_last()) {
            Option::None => Option::None,
            Option::Some(st) => {
                let last = segs.last();
                if last.len() == 0 || last == seq!['.'] {
                    Some(st)
                } else if last == seq!['.', '.'] {
                    if st.len() == 0 {
                        Option::None
                    } else {
                        Some(st.drop_last())
                    }
                } else {
                    Some(st.push(last))
                }
            },
        }
    }
}

proof fn lemma_normalize_prefix_none(segs: Seq<Seq<char>>, k: int)
    requires
        0 <= k <= segs.len(),
        normalize_segments(segs.take(k)) is None,
    ensures
        normalize_segments(segs) is None,
    decreases segs.len(),
{
    if k == segs.len() {
        assert(segs.take(k) =~= segs);
    } else {
        assert(segs.drop_last().take(k) =~= segs.take(k));
        lemma_normalize_prefix_none(segs.drop_last(), k);
    }
}

/// Every segment a successful normalization keeps is a plain name:
/// non-empty and neither `.` nor `..`.
pub proof fn lemma_normalize_clean(segs: Seq<Seq<char>>)
    ensures
        normalize_segments(segs) matches Some(st) ==> forall|i: int|
            0 <= i < st.len() ==> (#[trigger] st[i]).len() > 0 && st[i] != seq!['.'] && st[i]
                != seq!['.', '.'],
    decreases segs.len(),
{
    if segs.len() > 0 {
        lemma_normalize_clean(segs.drop_last());
    }
}

/// The served root followed by each segment in turn, `/`-separated.
pub open spec fn join_under(root: Seq<char>, segs: Seq<Seq<char>>) -> Seq<char>
    decreases segs.len(),
{
    if segs.len() == 0 {
        root
    } else {
        join_under(root, segs.drop_last()) + seq!['/'] + segs.last()
    }
}

/// A joined path always extends the root: the root is its prefix, and
/// anything after it begins with a separator.
pub proof fn lemma_join_prefix(root: Seq<char>, segs: Seq<Seq<char>>)
    ensures
        join_under(root, segs).len() >= root.len(),
        join_under(root, segs).subrange(0, root.len() as int) == root,
        segs.len() > 0 ==> join_under(root, segs).len() > root.len() && join_under(root, segs)[root.len() as int]
            == '/',
    decreases segs.len(),
{
    if segs.len() == 0 {
        assert(join_under(root, segs).subrange(0, root.len() as int) =~= root);
    } else {
        lemma_join_prefix(root, segs.drop_last());
        let prev = join_under(root, segs.drop_last());
        let j = join_under(root, segs);
        assert(forall|i: int| 0 <= i < prev.len() ==> j[i] == prev[i]);
        assert(j.subrange(0, root.len() as int) =~= prev.subrange(0, root.len() as int));
    }
}

/// Path containment: whatever the request says, a path that resolves does
/// not escape the served root. The resolved path starts with the root, and
/// what follows is made of plain segments only — no `..` survives
/// normalization, and a `..` that would climb above the root makes
/// normalization fail instead of resolving elsewhere.
pub proof fn lemma_path_containment(root: Seq<char>, decoded: Seq<char>)
    ensures
        normalize_segments(split_segments(decoded)) matches Some(segs) ==> {
            let p = join_under(root, segs);
            &&& p.len() >= root.len()
            &&& p.subrange(0, root.len() as int) == root
            &&& (p.len() > root.len() ==> p[root.len() as int] == '/')
            &&& (forall|i: int|
                0 <= i < segs.len() ==> (#[trigger] segs[i]).len() > 0 && segs[i] != seq!['.', '.'])
        },
{
    lemma_normalize_clean(split_segments(decoded));
    if normalize_segments(split_segments(decoded)) is Some {
        let segs = normalize_segments(split_segments(decoded)).unwrap();
        lemma_join_prefix(root, segs);
    }
}

/// The views of a vector of character vectors.
pub open spec fn seg_views(v: Seq<Vec<char>>) -> Seq<Seq<char>> {
    v.map_values(|x: Vec<char>| x@)
}

fn split_path(chars: &Vec<char>) -> (r: Vec<Vec<char>>)
    ensures
        seg_views(r@) == split_segments(chars@),
{
    let mut segs: Vec<Vec<char>> = Vec::new();
    segs.push(Vec::new());
    proof {
        assert(seg_views(segs@) =~= split_segments(chars@.take(0)));
    }
    let mut i: usize = 0;
    while i < chars.len()
        invariant
            i <= chars@.len(),
            segs@.len() >= 1,
            seg_views(segs@) == split_segments(chars@.take(i as int)),
        decreases chars@.len() - i,
    {
        let c = chars[i];
        proof {
            assert(chars@.take(i + 1 as int).drop_last() =~= chars@.take(i as int));
            assert(chars@.take(i + 1 as int).last() == chars@[i as int]);
        }
        if c == '/' {
            segs.push(Vec::new());
            proof {
                assert(seg_views(segs@) =~= split_segments(chars@.take(i as int)).push(
                    Seq::<char>::empty(),
                ));
            }
        } else {
            let mut last = segs.pop().unwrap();
            last.push(c);
            segs.push(last);
            proof {
                let sp = split_segments(chars@.take(i as int));
                assert(sp.len() >= 1) by {
                    lemma_split_nonempty(chars@.take(i as int));
                }
                assert(seg_views(segs@) =~= sp.drop_last().push(sp.last().push(chars@[i as int])));
            }
        }
        i = i + 1;
    }
    proof {
        assert(chars@.take(chars@.len() as int) =~= chars@);
    }
    segs
}

fn copy_chars(v: &Vec<char>) -> (r: Vec<char>)
    ensures
        r@ == v@,
{
    let mut r: Vec<char> = Vec::new();
    let mut i: usize = 0;
    while i < v.len()
        invariant
            i <= v@.len(),
            r@ == v@.take(i as int),
        decreases v@.len() - i,
    {
        r.push(v[i]);
        proof {
            assert(v@.take(i + 1 as int) =~= v@.take(i as int).push(v@[i as int]));
        }
        i = i + 1;
    }
    proof {
        assert(v@.take(v@.len() as int) =~= v@);
    }
    r
}

fn seg_is(v: &Vec<char>, w: char) -> (r: bool)
    ensures
        r == (v@ == seq![w]),
{
    let r = v.len() == 1 && v[0] == w;
    proof {
        if v@.len() == 1 && v@[0] == w {
            assert(v@ =~= seq![w]);
        }
        if v@ == seq![w] {
            assert(v@.len() == 1 && v@[0] == w);
        }
    }
    r
}

fn seg_is_pair(v: &Vec<char>, w: char) -> (r: bool)
    ensures
        r == (v@ == seq![w, w]),
{
    let r = v.len() == 2 && v[0] == w && v[1] == w;
    proof {
        if v@.len() == 2 && v@[0] == w && v@[1] == w {
            assert(v@ =~= seq![w, w]);
        }
        if v@ == seq![w, w] {
            assert(v@.len() == 2 && v@[0] == w && v@[1] == w);
        }
    }
    r
}

fn normalize_path(segs: &Vec<Vec<char>>) -> (r: Option<Vec<Vec<char>>>)
    ensures
        r is Some <==> normalize_segments(seg_views(segs@)) is Some,
        r matches Some(st) ==> Some(seg_views(st@)) == normalize_segments(seg_views(segs@)),
{
    let mut stack: Vec<Vec<char>> = Vec::new();
    proof {
        assert(seg_views(stack@) =~= Seq::<Seq<char>>::empty());
        assert(seg_views(segs@).take(0) =~= Seq::<Seq<char>>::empty());
    }
    let mut i: usize = 0;
    while i < segs.len()
        invariant
            i <= segs@.len(),
            Some(seg_views(stack@)) == normalize_segments(seg_views(segs@).take(i as int)),
        decreases segs@.len() - i,
    {
        let seg = &segs[i];
        proof {
            assert(seg_views(segs@).take(i + 1 as int).drop_last() =~= seg_views(segs@).take(
                i as int,
            ));
            assert(seg_views(segs@).take(i + 1 as int).last() == segs@[i as int]@);
        }
        if seg.len() == 0 || seg_is(seg, '.') {
            // dropped
        } else if seg_is_pair(seg, '.') {
            if stack.len() == 0 {
                proof {
                    lemma_normalize_prefix_none(seg_views(segs@), i + 1 as int);
                }
                return Option::None;
            }
            stack.pop().unwrap();
            proof {
                let st = normalize_segments(seg_views(segs@).take(i as int)).unwrap();
                assert(seg_views(stack@) =~= st.drop_last());
            }
        } else {
            let copied = copy_chars(seg);
            stack.push(copied);
            proof {
                let st = normalize_segments(seg_views(segs@).take(i as int)).unwrap();
                assert(seg_views(stack@) =~= st.push(segs@[i as int]@));
            }
        }
        i = i + 1;
    }
    proof {
        assert(seg_views(segs@).take(segs@.len() as int) =~= seg_views(segs@));
    }
    Some(stack)
}

fn join_path(root: &str, segs: &Vec<Vec<char>>) -> (r: String)
    ensures
        r@ == join_under(root@, seg_views(segs@)),
{
    let mut out: String = root.to_owned();
    proof {
        assert(seg_views(segs@).take(0) =~= Seq::<Seq<char>>::empty());
    }
    let mut i: usize = 0;
    while i < segs.len()
        invariant
            i <= segs@.len(),
            out@ == join_under(root@, seg_views(segs@).take(i as int)),
        decreases segs@.len() - i,
    {
        out.append("/");
        let piece = chars_to_string(&segs[i]);
        out.append(piece.as_str());
        proof {
            reveal_strlit("/");
            assert("/"@ =~= seq!['/']);
            assert(seg_views(segs@).take(i + 1 as int).drop_last() =~= seg_views(segs@).take(
                i as int,
            ));
            assert(seg_views(segs@).take(i + 1 as int).last() == segs@[i as int]@);
            assert(out@ =~= join_under(root@, seg_views(segs@).take(i as int)) + seq!['/']
                + segs@[i as int]@);
        }
        i = i + 1;
    }
    proof {
        assert(seg_views(segs@).take(segs@.len() as int) =~= seg_views(segs@));
    }
    out
}

/// Map a percent-encoded request path to a filesystem path confined to the
/// served root. Rejected with `InvalidPath` when the decoded bytes are not
/// UTF-8, or when `..` segments would climb above the root; otherwise the
/// result is the root extended by the normalized segments.
pub fn resolve_request_path(root: &str, raw_path: &str) -> (r: Result<String, ErrorKind>)
    ensures
        r is Ok <==> (percent_decode_spec(raw_path@) matches Some(d) && normalize_segments(
            split_segments(d),
        ) is Some),
        r matches Ok(p) ==> p@ == join_under(
            root@,
            normalize_segments(split_segments(percent_decode_spec(raw_path@).unwrap())).unwrap(),
        ),
        r matches Ok(p) ==> p@.len() >= root@.len() && p@.subrange(0, root@.len() as int) == root@
            && (p@.len() > root@.len() ==> p@[root@.len() as int] == '/'),
        r matches Err(e) ==> e == ErrorKind::InvalidPath,
{
    proof {
        if percent_decode_spec(raw_path@) is Some {
            lemma_path_containment(root@, percent_decode_spec(raw_path@).unwrap());
        }
    }
    let decoded = match percent_decode(raw_path) {
        Some(d) => d,
        Option::None => {
            return Err(ErrorKind::InvalidPath);
        },
    };
    let chars = string_to_chars(decoded.as_str());
    let segs = split_path(&chars);
    let norm = match normalize_path(&segs) {
        Some(st) => st,
        Option::None => {
            return Err(ErrorKind::InvalidPath);
        },
    };
    Ok(join_path(root, &norm))
}

/// What a resolved path names on disk: a directory to list, a file to
/// serve, or nothing.
#[derive(Clone, Debug, PartialEq, Eq)]
pub enum PathKind {
    Directory(String),
    File(String),
    NotFound,
}

/// Classify a resolved path from what the filesystem says of it; a
/// directory takes precedence over a file, and anything else is absent.
pub fn classify_path(path: String, is_dir: bool, is_file: bool) -> (r: PathKind)
    ensures
        is_dir ==> (r matches PathKind::Directory(p) && p@ == path@),
        !is_dir && is_file ==> (r matches PathKind::File(p) && p@ == path@),
        !is_dir && !is_file ==> r == PathKind::NotFound,
{
    if is_dir {
        PathKind::Directory(path)
    } else if is_file {
        PathKind::File(path)
    } else {
        PathKind::NotFound
    }
}

} // verus!
