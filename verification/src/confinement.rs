use vstd::prelude::*;
use crate::folders::{absolutized, join_slash, join_tokens, resolve, rooted, start_tokens};
use crate::ids::{lemma_uuid_text_name, uuid_text};
use crate::folders::{stays_in_user_dir, user_dir, lies_within};
use crate::paths::{is_prefix_of, components, is_absolute, keep_named, lemma_push_child, lemma_split_nonempty, path_push, split_on};

verus! {

/// Whether `t` is the root followed by names: pieces that are not empty, hold
/// no `/` and are not `.`, as the components of an absolute path are.
pub open spec fn rooted_names(t: Seq<Seq<char>>) -> bool {
    &&& t.len() >= 1
    &&& t[0] == seq!['/']
    &&& forall|i: int| 1 <= i < t.len() ==> is_name(#[trigger] t[i])
}

/// Whether `n` can be a component after the root: not empty, no `/`, not `.`.
pub open spec fn is_name(n: Seq<char>) -> bool {
    n.len() > 0 && !n.contains('/') && n != seq!['.']
}

/// No piece of a split holds the separator.
pub proof fn lemma_split_pieces_clean(s: Seq<char>, sep: char)
    ensures
        forall|i: int| 0 <= i < split_on(s, sep).len() ==> !(#[trigger] split_on(s, sep)[i]).contains(sep),
    decreases s.len(),
{
    lemma_split_nonempty(s, sep);
    if s.len() > 0 {
        let init = split_on(s.drop_last(), sep);
        lemma_split_pieces_clean(s.drop_last(), sep);
        lemma_split_nonempty(s.drop_last(), sep);
        let sp = split_on(s, sep);
        assert forall|i: int| 0 <= i < sp.len() implies !(#[trigger] sp[i]).contains(sep) by {
            if s.last() == sep {
                if i < init.len() {
                    assert(sp[i] == init[i]);
                } else {
                    assert(sp[i] == Seq::<char>::empty());
                }
            } else {
                if i < init.len() - 1 {
                    assert(sp[i] == init[i]);
                } else {
                    let p = init.last();
                    assert(sp[i] == p.push(s.last()));
                    assert(!init[init.len() - 1].contains(sep));
                    if sp[i].contains(sep) {
                        let k = choose|k: int| 0 <= k < sp[i].len() && sp[i][k] == sep;
                        if k < p.len() {
                            assert(p[k] == sep);
                            assert(p.contains(sep));
                        }
                    }
                }
            }
        }
    }
}

/// The pieces `keep_named` keeps are names, when no piece holds a `/`.
pub proof fn lemma_keep_named_clean(ps: Seq<Seq<char>>)
    requires
        forall|i: int| 0 <= i < ps.len() ==> !(#[trigger] ps[i]).contains('/'),
    ensures
        forall|i: int| 0 <= i < keep_named(ps).len() ==> is_name(#[trigger] keep_named(ps)[i]),
    decreases ps.len(),
{
    if ps.len() > 0 {
        let init = ps.drop_last();
        assert forall|i: int| 0 <= i < init.len() implies !(#[trigger] init[i]).contains('/') by {
            assert(init[i] == ps[i]);
        }
        lemma_keep_named_clean(init);
        let last = ps.last();
        assert(!ps[ps.len() - 1].contains('/'));
        let k = keep_named(ps);
        let k0 = keep_named(init);
        assert forall|i: int| 0 <= i < k.len() implies is_name(#[trigger] k[i]) by {
            if last.len() == 0 || last == seq!['.'] {
                assert(k == k0);
            } else {
                assert(k == k0.push(last));
                if i < k0.len() {
                    assert(k[i] == k0[i]);
                } else {
                    assert(k[i] == last);
                }
            }
        }
    }
}

/// The components of an absolute path are the root followed by names.
pub proof fn lemma_absolute_components(s: Seq<char>)
    requires
        is_absolute(s),
    ensures
        rooted_names(components(s)),
{
    let parts = split_on(s, '/');
    lemma_split_nonempty(s, '/');
    lemma_split_pieces_clean(s, '/');
    let rest = parts.drop_first();
    assert forall|i: int| 0 <= i < rest.len() implies !(#[trigger] rest[i]).contains('/') by {
        assert(rest[i] == parts[i + 1]);
    }
    lemma_keep_named_clean(rest);
    let c = components(s);
    assert(c == seq![seq!['/']] + keep_named(rest));
    assert forall|i: int| 1 <= i < c.len() implies is_name(#[trigger] c[i]) by {
        assert(c[i] == keep_named(rest)[i - 1]);
    }
}

/// Writing the root and names back as a path gives the same components; the
/// path is not empty, and ends in a separator only when it is the root alone.
pub proof fn lemma_join_components(t: Seq<Seq<char>>)
    requires
        rooted_names(t),
    ensures
        components(join_tokens(t, true)) == t,
        join_tokens(t, true).len() > 0,
        join_tokens(t, true)[0] == '/',
        t.len() > 1 ==> join_tokens(t, true).last() != '/',
    decreases t.len(),
{
    reveal_strlit("/");
    let j = join_tokens(t, true);
    if t.len() == 1 {
        assert(t.drop_first() == Seq::<Seq<char>>::empty());
        assert(j == seq!['/']);
        let e = Seq::<char>::empty();
        assert(seq!['/'].drop_last() == e);
        assert(split_on(e, '/') == seq![e]);
        assert(split_on(seq!['/'], '/') == seq![e, e]);
        assert(seq![e, e].drop_first() == seq![e]);
        assert(seq![e].drop_last() == Seq::<Seq<char>>::empty());
        assert(seq![e].last() == e);
        assert(keep_named(Seq::<Seq<char>>::empty()) == Seq::<Seq<char>>::empty());
        assert(keep_named(seq![e]) == Seq::<Seq<char>>::empty());
        assert(components(j) == seq![seq!['/']]);
        assert(t == seq![seq!['/']]);
    } else {
        let t0 = t.drop_last();
        let n = t.last();
        assert(rooted_names(t0)) by {
            assert forall|i: int| 1 <= i < t0.len() implies is_name(#[trigger] t0[i]) by {
                assert(t0[i] == t[i]);
            }
        }
        assert(is_name(t[t.len() - 1]));
        lemma_join_components(t0);
        let j0 = join_tokens(t0, true);
        assert(n.len() > 0 && n[0] != '/') by {
            if n[0] == '/' {
                assert(n.contains('/'));
            }
        }
        let x = t.drop_first();
        if t.len() == 2 {
            assert(t0.drop_first() == Seq::<Seq<char>>::empty());
            assert(j0 == seq!['/']);
            assert(x == seq![n]);
            assert(j == seq!['/'] + n);
            assert(path_push(j0, n) == j0 + n);
        } else {
            assert(x.drop_last() == t0.drop_first());
            assert(x.last() == n);
            assert(join_slash(x) == join_slash(t0.drop_first()) + "/"@ + n);
            assert(j == j0 + seq!['/'] + n);
            assert(j0.last() != '/');
            assert(path_push(j0, n) == j0 + seq!['/'] + n);
        }
        assert(j == path_push(j0, n));
        lemma_push_child(j0, n);
        assert(components(j) == t0.push(n));
        assert(t0.push(n) == t);
        assert(j[0] == '/');
        assert(j.last() == n.last());
        assert(n.last() != '/') by {
            if n.last() == '/' {
                assert(n[n.len() - 1] == '/');
                assert(n.contains('/'));
            }
        }
    }
}

/// Walking names from the root and names keeps the root first and names after it.
pub proof fn lemma_resolve_rooted(t: Seq<Seq<char>>, rest: Seq<Seq<char>>)
    requires
        rooted_names(t),
        forall|i: int| 0 <= i < rest.len() ==> is_name(#[trigger] rest[i]),
    ensures
        rooted_names(resolve(t, true, rest)),
    decreases rest.len(),
{
    if rest.len() > 0 {
        let init = rest.drop_last();
        assert forall|i: int| 0 <= i < init.len() implies is_name(#[trigger] init[i]) by {
            assert(init[i] == rest[i]);
        }
        lemma_resolve_rooted(t, init);
        let r = resolve(t, true, init);
        let c = rest.last();
        assert(is_name(rest[rest.len() - 1]));
        let r2 = resolve(t, true, rest);
        if c == seq!['.', '.'] {
            if r.len() > 1 {
                assert(r2 == r.drop_last());
                assert forall|i: int| 1 <= i < r2.len() implies is_name(#[trigger] r2[i]) by {
                    assert(r2[i] == r[i]);
                }
            }
        } else {
            assert(r2 == r.push(c));
            assert forall|i: int| 1 <= i < r2.len() implies is_name(#[trigger] r2[i]) by {
                if i < r.len() {
                    assert(r2[i] == r[i]);
                }
            }
        }
    }
}

/// The path `k` parent steps up from `base`: `base/..`, `base/../..`, ...
pub open spec fn climb(base: Seq<char>, k: nat) -> Seq<char>
    decreases k,
{
    if k == 0 {
        base
    } else {
        path_push(climb(base, (k - 1) as nat), seq!['.', '.'])
    }
}

/// `k` parent steps written as a relative path: `..`, `../..`, ...
pub open spec fn ups(k: nat) -> Seq<char>
    decreases k,
{
    if k <= 1 {
        seq!['.', '.']
    } else {
        path_push(ups((k - 1) as nat), seq!['.', '.'])
    }
}

proof fn lemma_ups_shape(k: nat)
    requires
        k >= 1,
    ensures
        ups(k).len() >= 2,
        ups(k)[0] == '.',
        ups(k).last() == '.',
        k > 1 ==> ups(k) == ups((k - 1) as nat) + seq!['/', '.', '.'],
    decreases k,
{
    if k > 1 {
        lemma_ups_shape((k - 1) as nat);
        let u0 = ups((k - 1) as nat);
        assert(path_push(u0, seq!['.', '.']) == u0 + seq!['/'] + seq!['.', '.']);
        assert(u0 + seq!['/'] + seq!['.', '.'] == u0 + seq!['/', '.', '.']);
    }
}

/// Pushing `k` parent steps onto a path that does not end in `/` climbs it.
proof fn lemma_push_ups(base: Seq<char>, k: nat)
    requires
        k >= 1,
        base.len() > 0,
        base.last() != '/',
    ensures
        path_push(base, ups(k)) == climb(base, k),
        climb(base, k).len() > 0,
        climb(base, k).last() == '.',
    decreases k,
{
    lemma_ups_shape(k);
    if k == 1 {
        assert(climb(base, 0) == base);
    } else {
        lemma_push_ups(base, (k - 1) as nat);
        let u0 = ups((k - 1) as nat);
        lemma_ups_shape((k - 1) as nat);
        let c0 = climb(base, (k - 1) as nat);
        assert(path_push(base, u0) == base + seq!['/'] + u0);
        assert(path_push(base, ups(k)) == base + seq!['/'] + ups(k));
        assert(climb(base, k) == c0 + seq!['/'] + seq!['.', '.']);
        assert(base + seq!['/'] + ups(k) == (base + seq!['/'] + u0) + seq!['/'] + seq!['.', '.']);
    }
}

/// Climbing `k` steps from a path with components `h` (not empty) adds `k`
/// components `..`; walking them from the root removes at least the last
/// component of the walked `h`, never the root.
proof fn lemma_climb_resolves(base: Seq<char>, k: nat)
    requires
        is_absolute(base),
        base.last() != '/',
        rooted_names(components(base)),
        components(base).len() >= 2,
        components(base).last() != seq!['.', '.'],
        k >= 1,
    ensures
        components(climb(base, k)).len() >= 1,
        components(climb(base, k))[0] == seq!['/'],
        forall|i: int|
            1 <= i < components(climb(base, k)).len() ==> is_name(#[trigger] components(climb(base, k))[i]),
        rooted_names(resolve(seq![seq!['/']], true, components(climb(base, k)).drop_first())),
        resolve(seq![seq!['/']], true, components(climb(base, k)).drop_first()).len() < resolve(
            seq![seq!['/']],
            true,
            components(base).drop_first(),
        ).len(),
    decreases k,
{
    let root = seq![seq!['/']];
    let h = components(base);
    let prev = climb(base, (k - 1) as nat);
    if k > 1 {
        lemma_climb_resolves(base, (k - 1) as nat);
    }
    assert(rooted_names(root)) by {
        assert(root[0] == seq!['/']);
    }
    assert forall|i: int| 0 <= i < h.drop_first().len() implies is_name(#[trigger] h.drop_first()[i]) by {
        assert(h.drop_first()[i] == h[i + 1]);
    }
    lemma_resolve_rooted(root, h.drop_first());
    let pc = components(prev);
    assert(prev.len() > 0) by {
        if k > 1 {
            lemma_push_ups(base, (k - 1) as nat);
        }
    }
    assert(pc.len() >= 1 && pc[0] == seq!['/'] && forall|i: int| 1 <= i < pc.len() ==> is_name(#[trigger] pc[i]));
    lemma_push_child(prev, seq!['.', '.']);
    let c = components(climb(base, k));
    assert(c == pc.push(seq!['.', '.']));
    assert(is_name(seq!['.', '.'])) by {
        if seq!['.', '.'].contains('/') {
            let j = choose|j: int| 0 <= j < 2 && seq!['.', '.'][j] == '/';
        }
    }
    assert forall|i: int| 1 <= i < c.len() implies is_name(#[trigger] c[i]) by {
        if i < pc.len() {
            assert(c[i] == pc[i]);
        }
    }
    assert(c.drop_first() == pc.drop_first().push(seq!['.', '.']));
    assert forall|i: int| 0 <= i < pc.drop_first().len() implies is_name(#[trigger] pc.drop_first()[i]) by {
        assert(pc.drop_first()[i] == pc[i + 1]);
    }
    lemma_resolve_rooted(root, pc.drop_first());
    let rp = resolve(root, true, pc.drop_first());
    assert(c.drop_first().drop_last() == pc.drop_first());
    assert(c.drop_first().last() == seq!['.', '.']);
    let rc = resolve(root, true, c.drop_first());
    assert(rc == (if rp.len() > 0 && (rp.len() != 1 || !true) { rp.drop_last() } else { rp }));
    assert(rooted_names(rc)) by {
        assert forall|i: int| 0 <= i < c.drop_first().len() implies is_name(#[trigger] c.drop_first()[i]) by {
            assert(c.drop_first()[i] == c[i + 1]);
        }
        lemma_resolve_rooted(root, c.drop_first());
    }
    if k == 1 {
        assert(prev == base);
        let rh = resolve(root, true, h.drop_first());
        assert(rp == rh);
        assert(h.drop_first().last() == h.last());
        lemma_resolve_len_names(root, h.drop_first());
    }
}

/// Walking names that hold no `..` only adds them.
proof fn lemma_resolve_len_names(t: Seq<Seq<char>>, rest: Seq<Seq<char>>)
    requires
        rooted_names(t),
        rest.len() >= 1,
        forall|i: int| 0 <= i < rest.len() ==> is_name(#[trigger] rest[i]),
        rest.last() != seq!['.', '.'],
    ensures
        resolve(t, true, rest).len() >= 2,
{
    let init = rest.drop_last();
    assert forall|i: int| 0 <= i < init.len() implies is_name(#[trigger] init[i]) by {
        assert(init[i] == rest[i]);
    }
    lemma_resolve_rooted(t, init);
    assert(is_name(rest[rest.len() - 1]));
}

/// A request that climbs out of the user's directory is refused. With an
/// absolute data directory, the path made of `k >= 1` parent steps (`..`,
/// `../..`, ...) pushed onto the user's directory, once absolutized, lies
/// outside that directory, whatever the working directory; so
/// `check_dir_in_data_dir`, and every request target built on it, answers with
/// the "bad path" error (400).
pub proof fn law_climbing_out_is_refused(data_dir: Seq<char>, userid: u128, k: nat, cwd: Seq<char>)
    requires
        is_absolute(data_dir),
        k >= 1,
    ensures
        !stays_in_user_dir(data_dir, userid, ups(k), cwd),
{
    let u = uuid_text(userid);
    lemma_uuid_text_name(userid);
    assert(u[0] != '/' && u.last() != '/') by {
        if u[0] == '/' {
            assert(u.contains('/'));
        }
        if u.last() == '/' {
            assert(u[u.len() - 1] == '/');
            assert(u.contains('/'));
        }
    }
    let home = user_dir(data_dir, userid);
    let td = components(data_dir);
    lemma_absolute_components(data_dir);
    lemma_push_child(data_dir, u);
    let h = components(home);
    assert(h == td.push(u));
    assert(is_name(u));
    assert(rooted_names(h)) by {
        assert forall|i: int| 1 <= i < h.len() implies is_name(#[trigger] h[i]) by {
            if i < td.len() {
                assert(h[i] == td[i]);
            }
        }
    }
    assert(home == data_dir + seq!['/'] + u || home == data_dir + u);
    assert(home[0] == '/');
    assert(home.last() == u.last());
    assert(h.last() != seq!['.', '.']);
    let root = seq![seq!['/']];
    lemma_climb_resolves(home, k);
    lemma_push_ups(home, k);
    let ask = path_push(home, ups(k));
    assert(ask == climb(home, k));
    assert(rooted(root));
    assert(start_tokens(h[0], cwd) == root);
    let rh = resolve(root, true, h.drop_first());
    assert(rooted_names(root)) by {
        assert(root[0] == seq!['/']);
    }
    assert forall|i: int| 0 <= i < h.drop_first().len() implies is_name(#[trigger] h.drop_first()[i]) by {
        assert(h.drop_first()[i] == h[i + 1]);
    }
    lemma_resolve_rooted(root, h.drop_first());
    assert(absolutized(home, cwd) == join_tokens(rh, true));
    lemma_join_components(rh);
    let c = components(ask);
    assert(start_tokens(c[0], cwd) == root);
    let rc = resolve(root, true, c.drop_first());
    assert(absolutized(ask, cwd) == join_tokens(rc, true));
    lemma_join_components(rc);
    assert(components(absolutized(home, cwd)) == rh);
    assert(components(absolutized(ask, cwd)) == rc);
    assert(rc.len() < rh.len());
    assert(!lies_within(absolutized(home, cwd), absolutized(ask, cwd)));
}

/// The other side of confinement: a request for a folder directly inside the
/// user's directory (one name, not `..`) stays inside it and is accepted.
pub proof fn law_child_folder_is_accepted(data_dir: Seq<char>, userid: u128, n: Seq<char>, cwd: Seq<char>)
    requires
        is_absolute(data_dir),
        is_name(n),
        n != seq!['.', '.'],
    ensures
        stays_in_user_dir(data_dir, userid, n, cwd),
{
    let u = uuid_text(userid);
    lemma_uuid_text_name(userid);
    assert(u[0] != '/' && u.last() != '/') by {
        if u[0] == '/' {
            assert(u.contains('/'));
        }
        if u.last() == '/' {
            assert(u[u.len() - 1] == '/');
            assert(u.contains('/'));
        }
    }
    let home = user_dir(data_dir, userid);
    let td = components(data_dir);
    lemma_absolute_components(data_dir);
    lemma_push_child(data_dir, u);
    let h = components(home);
    assert(is_name(u));
    assert(rooted_names(h)) by {
        assert forall|i: int| 1 <= i < h.len() implies is_name(#[trigger] h[i]) by {
            if i < td.len() {
                assert(h[i] == td[i]);
            }
        }
    }
    assert(home == data_dir + seq!['/'] + u || home == data_dir + u);
    assert(home[0] == '/');
    let ask = path_push(home, n);
    lemma_push_child(home, n);
    let c = components(ask);
    assert(c == h.push(n));
    let root = seq![seq!['/']];
    assert(rooted_names(root)) by {
        assert(root[0] == seq!['/']);
    }
    assert(rooted(root));
    assert forall|i: int| 0 <= i < h.drop_first().len() implies is_name(#[trigger] h.drop_first()[i]) by {
        assert(h.drop_first()[i] == h[i + 1]);
    }
    lemma_resolve_rooted(root, h.drop_first());
    let rh = resolve(root, true, h.drop_first());
    assert(c.drop_first() == h.drop_first().push(n));
    assert(c.drop_first().drop_last() == h.drop_first());
    let rc = resolve(root, true, c.drop_first());
    assert(rc == rh.push(n));
    assert(rooted_names(rc)) by {
        assert forall|i: int| 1 <= i < rc.len() implies is_name(#[trigger] rc[i]) by {
            if i < rh.len() {
                assert(rc[i] == rh[i]);
            }
        }
    }
    assert(start_tokens(h[0], cwd) == root);
    assert(start_tokens(c[0], cwd) == root);
    lemma_join_components(rh);
    lemma_join_components(rc);
    assert(absolutized(home, cwd) == join_tokens(rh, true));
    assert(absolutized(ask, cwd) == join_tokens(rc, true));
    assert(is_prefix_of(rh, rc));
}

} // verus!
