use vstd::prelude::*;
use crate::paths::{components, path_components, views};
use crate::text::{str_eq, string_of};

verus! {

/// The folders a found file asks for: starting from `base`, each component of
/// `comps` that names an entry is entered, each `..` leaves the last folder
/// entered (if any), and `.` and the root change nothing.
pub open spec fn rebuild(base: Seq<Seq<char>>, comps: Seq<Seq<char>>) -> Seq<Seq<char>>
    decreases comps.len(),
{
    if comps.len() == 0 {
        base
    } else {
        let s = rebuild(base, comps.drop_last());
        let c = comps.last();
        if c == seq!['.', '.'] {
            if s.len() > 0 {
                s.drop_last()
            } else {
                s
            }
        } else if c == seq!['.'] || c == seq!['/'] {
            s
        } else {
            s.push(c)
        }
    }
}

/// The chain of folders a directory upload creates for one file found at the
/// path `rel` below the uploaded folder: the uploaded folder's parent `parent`,
/// then the folders of `rel`.
pub fn folder_chain(parent: &str, rel: &str) -> (res: Vec<String>)
    ensures
        res.deep_view() == rebuild(seq![parent@], components(rel@)),
{
    let comps = path_components(rel);
    let ghost cs = components(rel@);
    let mut res: Vec<String> = Vec::new();
    res.push(String::from_str(parent));
    assert(res.deep_view() == seq![parent@]);
    assert(views(comps@).subrange(0, 0) == Seq::<Seq<char>>::empty());
    let mut i: usize = 0;
    while i < comps.len()
        invariant
            i <= comps@.len(),
            views(comps@) == cs,
            res.deep_view() == rebuild(seq![parent@], cs.subrange(0, i as int)),
        decreases comps@.len() - i,
    {
        assert(cs.subrange(0, i + 1).drop_last() == cs.subrange(0, i as int));
        assert(cs.subrange(0, i + 1).last() == comps@[i as int]@);
        let c = &comps[i];
        if c.len() == 2 && c[0] == '.' && c[1] == '.' {
            assert(c@ == seq!['.', '.']);
            if res.len() > 0 {
                let ghost before = res.deep_view();
                res.pop();
                assert(res.deep_view() == before.drop_last());
            }
        } else if c.len() == 1 && (c[0] == '.' || c[0] == '/') {
            assert(c@ == seq!['.'] || c@ == seq!['/']);
        } else {
            assert(c@ != seq!['.', '.'] && c@ != seq!['.'] && c@ != seq!['/']);
            let ghost before = res.deep_view();
            res.push(string_of(c));
            assert(res.deep_view() == before.push(c@));
        }
        i = i + 1;
    }
    assert(cs.subrange(0, comps@.len() as int) == cs);
    res
}

/// The chains with every repeat of an earlier one left out, in order.
pub open spec fn distinct(chains: Seq<Seq<Seq<char>>>) -> Seq<Seq<Seq<char>>>
    decreases chains.len(),
{
    if chains.len() == 0 {
        Seq::empty()
    } else {
        let before = distinct(chains.drop_last());
        if before.contains(chains.last()) {
            before
        } else {
            before.push(chains.last())
        }
    }
}

fn same_chain(a: &Vec<String>, b: &Vec<String>) -> (res: bool)
    ensures
        res == (a.deep_view() == b.deep_view()),
{
    if a.len() != b.len() {
        assert(a.deep_view().len() != b.deep_view().len());
        return false;
    }
    let mut i: usize = 0;
    while i < a.len()
        invariant
            a@.len() == b@.len(),
            i <= a@.len(),
            forall|k: int| 0 <= k < i ==> a.deep_view()[k] == b.deep_view()[k],
        decreases a@.len() - i,
    {
        if !str_eq(a[i].as_str(), b[i].as_str()) {
            assert(a.deep_view()[i as int] != b.deep_view()[i as int]);
            return false;
        }
        i = i + 1;
    }
    assert(a.deep_view() == b.deep_view());
    true
}

fn has_chain(v: &Vec<Vec<String>>, c: &Vec<String>) -> (res: bool)
    ensures
        res == v.deep_view().contains(c.deep_view()),
{
    let mut i: usize = 0;
    while i < v.len()
        invariant
            i <= v@.len(),
            forall|k: int| 0 <= k < i ==> v.deep_view()[k] != c.deep_view(),
        decreases v@.len() - i,
    {
        if same_chain(&v[i], c) {
            assert(v.deep_view()[i as int] == c.deep_view());
            return true;
        }
        i = i + 1;
    }
    false
}

fn copy_chain(c: &Vec<String>) -> (res: Vec<String>)
    ensures
        res.deep_view() == c.deep_view(),
{
    let mut res: Vec<String> = Vec::new();
    let mut i: usize = 0;
    while i < c.len()
        invariant
            i <= c@.len(),
            res.deep_view() == c.deep_view().subrange(0, i as int),
        decreases c@.len() - i,
    {
        let ghost before = res.deep_view();
        res.push(c[i].clone());
        assert(res.deep_view() == before.push(c.deep_view()[i as int]));
        i = i + 1;
    }
    assert(c.deep_view().subrange(0, c@.len() as int) == c.deep_view());
    res
}

/// The chains left by `distinct` are those of `chains`, each once.
pub proof fn lemma_distinct(chains: Seq<Seq<Seq<char>>>)
    ensures
        forall|x: Seq<Seq<char>>| distinct(chains).contains(x) <==> chains.contains(x),
        forall|i: int, j: int|
            0 <= i < j < distinct(chains).len() ==> distinct(chains)[i] != distinct(chains)[j],
    decreases chains.len(),
{
    if chains.len() > 0 {
        let init = chains.drop_last();
        lemma_distinct(init);
        assert forall|x: Seq<Seq<char>>| chains.contains(x) <==> (init.contains(x) || x
            == chains.last()) by {
            if chains.contains(x) {
                let k = choose|k: int| 0 <= k < chains.len() && chains[k] == x;
                if k < chains.len() - 1 {
                    assert(init[k] == x);
                }
            }
            if init.contains(x) {
                let k = choose|k: int| 0 <= k < init.len() && init[k] == x;
                assert(chains[k] == x);
            }
            if x == chains.last() {
                assert(chains[chains.len() - 1] == x);
            }
        }
        let before = distinct(init);
        if !before.contains(chains.last()) {
            let after = before.push(chains.last());
            assert forall|x: Seq<Seq<char>>| after.contains(x) <==> (before.contains(x) || x
                == chains.last()) by {
                if after.contains(x) {
                    let k = choose|k: int| 0 <= k < after.len() && after[k] == x;
                    if k < before.len() {
                        assert(before[k] == x);
                    }
                }
                if before.contains(x) {
                    let k = choose|k: int| 0 <= k < before.len() && before[k] == x;
                    assert(after[k] == x);
                }
                if x == chains.last() {
                    assert(after[before.len() as int] == x);
                }
            }
            assert forall|i: int, j: int| 0 <= i < j < after.len() implies after[i] != after[j] by {
                if j == before.len() {
                    assert(after[i] == before[i]);
                    assert(before.contains(before[i]));
                } else {
                    assert(after[i] == before[i] && after[j] == before[j]);
                }
            }
        }
    }
}

/// The folder chains to create, each once: the set the directory upload
/// gathers, in the order the files were found.
pub fn distinct_chains(chains: &Vec<Vec<String>>) -> (res: Vec<Vec<String>>)
    ensures
        res.deep_view() == distinct(chains.deep_view()),
        forall|x: Seq<Seq<char>>| res.deep_view().contains(x) <==> chains.deep_view().contains(x),
        forall|i: int, j: int|
            0 <= i < j < res.deep_view().len() ==> res.deep_view()[i] != res.deep_view()[j],
{
    proof {
        lemma_distinct(chains.deep_view());
    }
    let mut res: Vec<Vec<String>> = Vec::new();
    let mut i: usize = 0;
    while i < chains.len()
        invariant
            i <= chains@.len(),
            res.deep_view() == distinct(chains.deep_view().subrange(0, i as int)),
        decreases chains@.len() - i,
    {
        assert(chains.deep_view().subrange(0, i + 1).drop_last() == chains.deep_view().subrange(
            0,
            i as int,
        ));
        assert(chains.deep_view().subrange(0, i + 1).last() == chains.deep_view()[i as int]);
        if !has_chain(&res, &chains[i]) {
            let ghost before = res.deep_view();
            res.push(copy_chain(&chains[i]));
            assert(res.deep_view() == before.push(chains.deep_view()[i as int]));
        }
        i = i + 1;
    }
    assert(chains.deep_view().subrange(0, chains@.len() as int) == chains.deep_view());
    res
}

/// The folder creations that make one chain on the server, in order: each
/// folder of the chain, created inside `at` followed by the folders before it.
pub fn chain_requests(at: &str, chain: &Vec<String>) -> (res: Vec<(String, Vec<String>)>)
    ensures
        res@.len() == chain@.len(),
        forall|i: int|
            0 <= i < chain@.len() ==> {
                &&& (#[trigger] res@[i]).0@ == chain.deep_view()[i]
                &&& res@[i].1.deep_view() == seq![at@] + chain.deep_view().subrange(0, i)
            },
{
    let mut res: Vec<(String, Vec<String>)> = Vec::new();
    let mut stack: Vec<String> = Vec::new();
    stack.push(String::from_str(at));
    let mut i: usize = 0;
    while i < chain.len()
        invariant
            i <= chain@.len(),
            res@.len() == i,
            stack.deep_view() == seq![at@] + chain.deep_view().subrange(0, i as int),
            forall|k: int|
                0 <= k < i ==> {
                    &&& (#[trigger] res@[k]).0@ == chain.deep_view()[k]
                    &&& res@[k].1.deep_view() == seq![at@] + chain.deep_view().subrange(0, k)
                },
        decreases chain@.len() - i,
    {
        let name = chain[i].clone();
        let parents = copy_chain(&stack);
        res.push((name, parents));
        let ghost before = stack.deep_view();
        stack.push(chain[i].clone());
        assert(stack.deep_view() == before.push(chain.deep_view()[i as int]));
        assert(chain.deep_view().subrange(0, i + 1) == chain.deep_view().subrange(0, i as int).push(
            chain.deep_view()[i as int],
        ));
        i = i + 1;
    }
    res
}

} // verus!
