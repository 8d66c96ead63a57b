//! Directory listing: the entries of a directory, each linked to its
//! sub-path, sorted lexicographically by name.
//!
//! The comparison rule is the order of Unicode code points, which for the
//! names' UTF-8 encodings is also plain byte order; it is case-sensitive,
//! so every upper-case name sorts before every lower-case one.
use vstd::prelude::*;
use crate::strutil::str_views;

verus! {

/// Lexicographic order on character sequences, by code point.
pub open spec fn lex_le(a: Seq<char>, b: Seq<char>) -> bool
    decreases a.len(),
{
    if a.len() == 0 {
        true
    } else if b.len() == 0 {
        false
    } else if a[0] == b[0] {
        lex_le(a.drop_first(), b.drop_first())
    } else {
        (a[0] as int) < (b[0] as int)
    }
}

/// The order is total.
pub proof fn lemma_lex_le_total(a: Seq<char>, b: Seq<char>)
    ensures
        lex_le(a, b) || lex_le(b, a),
    decreases a.len(),
{
    if a.len() > 0 && b.len() > 0 && a[0] == b[0] {
        lemma_lex_le_total(a.drop_first(), b.drop_first());
    }
}

/// The order is transitive.
pub proof fn lemma_lex_le_trans(a: Seq<char>, b: Seq<char>, c: Seq<char>)
    requires
        lex_le(a, b),
        lex_le(b, c),
    ensures
        lex_le(a, c),
    decreases a.len(),
{
    if a.len() > 0 && b.len() > 0 && c.len() > 0 && a[0] == b[0] && b[0] == c[0] {
        lemma_lex_le_trans(a.drop_first(), b.drop_first(), c.drop_first());
    }
}

/// A sequence of names in lexicographic order.
pub open spec fn lex_sorted(s: Seq<Seq<char>>) -> bool {
    forall|i: int, j: int| 0 <= i < j < s.len() ==> lex_le(#[trigger] s[i], #[trigger] s[j])
}

fn str_le_from(a: &str, b: &str, i: usize, na: usize, nb: usize) -> (r: bool)
    requires
        na == a@.len(),
        nb == b@.len(),
        i <= na,
        i <= nb,
    ensures
        r == lex_le(a@.skip(i as int), b@.skip(i as int)),
    decreases na - i,
{
    if i == na {
        proof {
            assert(a@.skip(i as int) =~= Seq::<char>::empty());
        }
        true
    } else if i == nb {
        proof {
            assert(b@.skip(i as int) =~= Seq::<char>::empty());
        }
        false
    } else {
        let ca = a.get_char(i);
        let cb = b.get_char(i);
        proof {
            assert(a@.skip(i as int)[0] == a@[i as int]);
            assert(b@.skip(i as int)[0] == b@[i as int]);
            assert(a@.skip(i as int).drop_first() =~= a@.skip(i + 1 as int));
            assert(b@.skip(i as int).drop_first() =~= b@.skip(i + 1 as int));
        }
        if ca == cb {
            str_le_from(a, b, i + 1, na, nb)
        } else {
            (ca as u32) < (cb as u32)
        }
    }
}

/// Compare two names in the listing order.
pub fn str_lex_le(a: &str, b: &str) -> (r: bool)
    ensures
        r == lex_le(a@, b@),
{
    let na = a.unicode_len();
    let nb = b.unicode_len();
    proof {
        assert(a@.skip(0) =~= a@);
        assert(b@.skip(0) =~= b@);
    }
    str_le_from(a, b, 0, na, nb)
}

proof fn lemma_insert_multiset(s: Seq<Seq<char>>, j: int, x: Seq<char>)
    requires
        0 <= j <= s.len(),
    ensures
        s.insert(j, x).to_multiset() == s.to_multiset().insert(x),
{
    broadcast use vstd::seq_lib::group_to_multiset_ensures;
    broadcast use vstd::multiset::group_multiset_axioms;

    let s2 = s.insert(j, x);
    assert(s2.remove(j) =~= s);
    assert(s2[j] == x);
    assert(s.to_multiset() == s2.to_multiset().remove(x));
    assert(s2.contains(x));
    assert(s2.to_multiset().count(x) > 0);
    assert(s2.to_multiset() =~= s.to_multiset().insert(x));
}

fn find_insert_pos(out: &Vec<String>, x: &str) -> (j: usize)
    ensures
        j <= out@.len(),
        forall|k: int| 0 <= k < j ==> lex_le(#[trigger] str_views(out@)[k], x@),
        j < out@.len() ==> !lex_le(str_views(out@)[j as int], x@),
{
    let mut j: usize = 0;
    while j < out.len()
        invariant
            j <= out@.len(),
            forall|k: int| 0 <= k < j ==> lex_le(#[trigger] str_views(out@)[k], x@),
        decreases out@.len() - j,
    {
        if !str_lex_le(out[j].as_str(), x) {
            return j;
        }
        j = j + 1;
    }
    j
}

/// Sort directory entry names into the listing order. The result holds
/// exactly the given names, in lexicographic order.
pub fn sort_entries(v: Vec<String>) -> (r: Vec<String>)
    ensures
        lex_sorted(str_views(r@)),
        str_views(r@).to_multiset() == str_views(v@).to_multiset(),
{
    broadcast use vstd::seq_lib::group_to_multiset_ensures;

    let mut out: Vec<String> = Vec::new();
    proof {
        assert(str_views(out@) =~= Seq::<Seq<char>>::empty());
        assert(str_views(v@.take(0)) =~= Seq::<Seq<char>>::empty());
    }
    let mut i: usize = 0;
    while i < v.len()
        invariant
            i <= v@.len(),
            lex_sorted(str_views(out@)),
            str_views(out@).to_multiset() == str_views(v@.take(i as int)).to_multiset(),
        decreases v@.len() - i,
    {
        let x = v[i].clone();
        let j = find_insert_pos(&out, x.as_str());
        let ghost old_out = out@;
        let ghost xv = x@;
        proof {
            let ovo = str_views(old_out);
            assert forall|k: int| j <= k < ovo.len() implies lex_le(xv, ovo[k]) by {
                lemma_lex_le_total(ovo[j as int], xv);
                if k > j {
                    lemma_lex_le_trans(xv, ovo[j as int], ovo[k]);
                }
            }
        }
        out.insert(j, x);
        proof {
            let ovo = str_views(old_out);
            let ovn = str_views(out@);
            ovo.insert_ensures(j as int, xv);
            assert(ovn =~= ovo.insert(j as int, xv));
            assert forall|p: int, q: int| 0 <= p < q < ovn.len() implies lex_le(
                ovn[p],
                ovn[q],
            ) by {
                if q < j {
                    assert(ovn[p] == ovo[p] && ovn[q] == ovo[q]);
                } else if p > j {
                    assert(ovn[p] == ovo[p - 1] && ovn[q] == ovo[q - 1]);
                } else if p < j && q == j {
                    assert(ovn[p] == ovo[p] && ovn[q] == xv);
                } else if p == j {
                    assert(ovn[p] == xv && ovn[q] == ovo[q - 1]);
                } else {
                    assert(p < j && q > j);
                    assert(ovn[p] == ovo[p] && ovn[q] == ovo[q - 1]);
                    lemma_lex_le_trans(ovo[p], xv, ovo[q - 1]);
                }
            }
            lemma_insert_multiset(ovo, j as int, xv);
            assert(ovn.to_multiset() == ovo.to_multiset().insert(xv));
            assert(str_views(v@.take(i + 1 as int)) =~= str_views(v@.take(i as int)).push(
                v@[i as int]@,
            ));
            vstd::seq_lib::to_multiset_build::<Seq<char>>(
                str_views(v@.take(i as int)),
                v@[i as int]@,
            );
            assert(str_views(v@.take(i + 1 as int)).to_multiset() == str_views(
                v@.take(i as int),
            ).to_multiset().insert(xv));
        }
        i = i + 1;
    }
    proof {
        assert(v@.take(v@.len() as int) =~= v@);
    }
    out
}

/// The link target of one listed entry: the directory path joined with the
/// file name, under a single leading slash.
pub open spec fn entry_url_spec(dir: Seq<char>, name: Seq<char>) -> Seq<char> {
    let joined = if dir.len() == 0 {
        name
    } else {
        dir + seq!['/'] + name
    };
    if joined.len() > 0 && joined[0] == '/' {
        joined
    } else {
        seq!['/'] + joined
    }
}

/// Build the link target of a directory entry.
pub fn entry_url(dir: &str, name: &str) -> (r: String)
    ensures
        r@ == entry_url_spec(dir@, name@),
{
    proof {
        reveal_strlit("/");
        assert("/"@ =~= seq!['/']);
    }
    let joined: String = if dir.unicode_len() == 0 {
        name.to_owned()
    } else {
        let mut d: String = dir.to_owned();
        d.append("/");
        d.append(name);
        proof {
            assert(d@ =~= dir@ + seq!['/'] + name@);
        }
        d
    };
    let leading = if joined.as_str().unicode_len() > 0 {
        joined.as_str().get_char(0) == '/'
    } else {
        false
    };
    if leading {
        joined
    } else {
        let mut r: String = "/".to_owned();
        r.append(joined.as_str());
        proof {
            assert(r@ =~= seq!['/'] + joined@);
        }
        r
    }
}

/// One entry of the rendered listing: a file name and the link to it.
#[derive(Clone, Debug, PartialEq, Eq)]
pub struct DirectoryEntry {
    pub filename: String,
    pub url: String,
}

/// The views of a sequence of entries' file names.
pub open spec fn entry_names(v: Seq<DirectoryEntry>) -> Seq<Seq<char>> {
    v.map_values(|e: DirectoryEntry| e.filename@)
}

/// Build the listing of a directory: one entry per name, sorted by name,
/// each linked to the directory path joined with the name.
pub fn build_listing(dir: &str, names: Vec<String>) -> (r: Vec<DirectoryEntry>)
    ensures
        lex_sorted(entry_names(r@)),
        entry_names(r@).to_multiset() == str_views(names@).to_multiset(),
        forall|k: int|
            0 <= k < r@.len() ==> (#[trigger] r@[k]).url@ == entry_url_spec(
                dir@,
                r@[k].filename@,
            ),
{
    let sorted = sort_entries(names);
    let mut r: Vec<DirectoryEntry> = Vec::new();
    proof {
        assert(entry_names(r@) =~= Seq::<Seq<char>>::empty());
        assert(str_views(sorted@).take(0) =~= Seq::<Seq<char>>::empty());
    }
    let mut i: usize = 0;
    while i < sorted.len()
        invariant
            i <= sorted@.len(),
            lex_sorted(str_views(sorted@)),
            entry_names(r@) == str_views(sorted@).take(i as int),
            forall|k: int|
                0 <= k < r@.len() ==> (#[trigger] r@[k]).url@ == entry_url_spec(
                    dir@,
                    r@[k].filename@,
                ),
        decreases sorted@.len() - i,
    {
        let name = sorted[i].clone();
        let url = entry_url(dir, name.as_str());
        let ghost old_r = r@;
        r.push(DirectoryEntry { filename: name, url });
        proof {
            assert(entry_names(r@) =~= entry_names(old_r).push(sorted@[i as int]@));
            assert(str_views(sorted@).take(i + 1 as int) =~= str_views(sorted@).take(
                i as int,
            ).push(sorted@[i as int]@));
        }
        i = i + 1;
    }
    proof {
        assert(str_views(sorted@).take(sorted@.len() as int) =~= str_views(sorted@));
    }
    r
}

} // verus!
