use vstd::prelude::*;
use crate::text::{chars_of, push_char};

verus! {

/// The path that `PathBuf::push` makes of `base` and `seg` on Unix: an absolute
/// `seg` replaces `base`; otherwise `seg` is appended, after a separator unless
/// `base` is empty or already ends in one.
pub open spec fn path_push(base: Seq<char>, seg: Seq<char>) -> Seq<char> {
    if seg.len() > 0 && seg[0] == '/' {
        seg
    } else if base.len() == 0 || base.last() == '/' {
        base + seg
    } else {
        base + seq!['/'] + seg
    }
}

/// Whether `p` is an absolute Unix path: it starts with the root.
pub open spec fn is_absolute(p: Seq<char>) -> bool {
    p.len() > 0 && p[0] == '/'
}

/// The path collected from `parts`, pushed one after the other onto an empty path.
pub open spec fn path_collect(parts: Seq<Seq<char>>) -> Seq<char>
    decreases parts.len(),
{
    if parts.len() == 0 {
        Seq::empty()
    } else {
        path_push(path_collect(parts.drop_last()), parts.last())
    }
}

/// The pieces of `s` between occurrences of `sep`, empty pieces included, as
/// `str::split` yields them.
pub open spec fn split_on(s: Seq<char>, sep: char) -> Seq<Seq<char>>
    decreases s.len(),
{
    if s.len() == 0 {
        seq![Seq::<char>::empty()]
    } else {
        let init = split_on(s.drop_last(), sep);
        if s.last() == sep {
            init.push(Seq::<char>::empty())
        } else {
            init.update(init.len() - 1, init.last().push(s.last()))
        }
    }
}

/// The pieces that name a component: empty pieces and `.` are dropped.
pub open spec fn keep_named(parts: Seq<Seq<char>>) -> Seq<Seq<char>>
    decreases parts.len(),
{
    if parts.len() == 0 {
        Seq::empty()
    } else {
        let rest = keep_named(parts.drop_last());
        let p = parts.last();
        if p.len() == 0 || p == seq!['.'] {
            rest
        } else {
            rest.push(p)
        }
    }
}

/// The components of a Unix path, as `Path::components` yields them: the root
/// (written `/`) if the path starts with a separator, a leading `.` of a
/// relative path, then every other piece but empty ones and `.`.
pub open spec fn components(s: Seq<char>) -> Seq<Seq<char>> {
    let parts = split_on(s, '/');
    if s.len() > 0 && s[0] == '/' {
        seq![seq!['/']] + keep_named(parts.drop_first())
    } else if parts[0] == seq!['.'] {
        seq![seq!['.']] + keep_named(parts.drop_first())
    } else {
        keep_named(parts)
    }
}

/// The character sequences held by a sequence of character vectors.
pub open spec fn views(v: Seq<Vec<char>>) -> Seq<Seq<char>> {
    Seq::new(v.len(), |i: int| v[i]@)
}

/// Whether `a` is a prefix of `b`.
pub open spec fn is_prefix_of(a: Seq<Seq<char>>, b: Seq<Seq<char>>) -> bool {
    a.len() <= b.len() && forall|i: int| 0 <= i < a.len() ==> #[trigger] a[i] == b[i]
}

/// Pushes `seg` onto the path `base`, as `PathBuf::push` does on Unix.
pub fn push_path(base: &mut String, seg: &str)
    ensures
        final(base)@ == path_push(old(base)@, seg@),
{
    let cs = chars_of(seg);
    let bs = chars_of(base.as_str());
    if cs.len() > 0 && cs[0] == '/' {
        let mut fresh = String::new();
        fresh.append(seg);
        *base = fresh;
    } else if bs.len() == 0 || bs[bs.len() - 1] == '/' {
        base.append(seg);
    } else {
        push_char(base, '/');
        base.append(seg);
        assert(final(base)@ == old(base)@ + seq!['/'] + seg@);
    }
}

/// The path collected from `parts`, as `parts.into_iter().collect::<PathBuf>()`.
pub fn collect_path(parts: &Vec<String>) -> (res: String)
    ensures
        res@ == path_collect(parts.deep_view()),
{
    let mut res = String::new();
    let mut i: usize = 0;
    while i < parts.len()
        invariant
            i <= parts.len(),
            res@ == path_collect(parts.deep_view().subrange(0, i as int)),
        decreases parts.len() - i,
    {
        assert(parts.deep_view().subrange(0, i + 1).drop_last() == parts.deep_view().subrange(
            0,
            i as int,
        ));
        push_path(&mut res, parts[i].as_str());
        i = i + 1;
    }
    assert(parts.deep_view().subrange(0, parts.len() as int) == parts.deep_view());
    res
}

proof fn lemma_split_step(s: Seq<char>, i: int)
    requires
        0 <= i < s.len(),
    ensures
        s.subrange(0, i + 1).drop_last() == s.subrange(0, i),
        s.subrange(0, i + 1).last() == s[i],
{
    assert(s.subrange(0, i + 1).drop_last() == s.subrange(0, i));
}

/// The pieces of `s` between occurrences of `sep`.
pub fn split_pieces(s: &Vec<char>, sep: char) -> (res: Vec<Vec<char>>)
    ensures
        views(res@) == split_on(s@, sep),
{
    let mut done: Vec<Vec<char>> = Vec::new();
    let mut cur: Vec<char> = Vec::new();
    let mut i: usize = 0;
    assert(s@.subrange(0, 0) == Seq::<char>::empty());
    assert(views(done@).push(cur@) == split_on(s@.subrange(0, 0), sep));
    while i < s.len()
        invariant
            i <= s.len(),
            views(done@).push(cur@) == split_on(s@.subrange(0, i as int), sep),
        decreases s.len() - i,
    {
        proof {
            lemma_split_step(s@, i as int);
        }
        let ghost before = views(done@);
        if s[i] == sep {
            let mut piece: Vec<char> = Vec::new();
            std::mem::swap(&mut piece, &mut cur);
            done.push(piece);
            assert(views(done@) == before.push(piece@));
        } else {
            cur.push(s[i]);
        }
        i = i + 1;
        assert(views(done@).push(cur@) == split_on(s@.subrange(0, i as int), sep));
    }
    assert(s@.subrange(0, s.len() as int) == s@);
    let ghost before = views(done@);
    let ghost last = cur@;
    done.push(cur);
    assert(views(done@) == before.push(last));
    done
}

/// Whether two character sequences are equal.
fn chars_eq(a: &Vec<char>, b: &Vec<char>) -> (res: bool)
    ensures
        res == (a@ == b@),
{
    if a.len() != b.len() {
        return false;
    }
    let mut i: usize = 0;
    while i < a.len()
        invariant
            a@.len() == b@.len(),
            i <= a@.len(),
            forall|k: int| 0 <= k < i ==> a@[k] == b@[k],
        decreases a@.len() - i,
    {
        if a[i] != b[i] {
            return false;
        }
        i = i + 1;
    }
    assert(a@ == b@);
    true
}

/// The pieces of `parts` from `start` on that name a component.
fn named_pieces(parts: &Vec<Vec<char>>, start: usize) -> (res: Vec<Vec<char>>)
    requires
        start <= parts.len(),
    ensures
        views(res@) == keep_named(views(parts@).subrange(start as int, parts.len() as int)),
{
    let mut res: Vec<Vec<char>> = Vec::new();
    let mut i: usize = start;
    let dot: Vec<char> = vec!['.'];
    assert(dot@ == seq!['.']);
    assert(views(parts@).subrange(start as int, start as int) == Seq::<Seq<char>>::empty());
    while i < parts.len()
        invariant
            start <= i <= parts.len(),
            dot@ == seq!['.'],
            views(res@) == keep_named(views(parts@).subrange(start as int, i as int)),
        decreases parts.len() - i,
    {
        assert(views(parts@).subrange(start as int, i + 1).drop_last()
            == views(parts@).subrange(start as int, i as int));
        let p = &parts[i];
        if p.len() == 0 || chars_eq(p, &dot) {
        } else {
            let ghost before = views(res@);
            res.push(p.clone());
            assert(views(res@) == before.push(parts[i as int]@));
        }
        i = i + 1;
    }
    res
}

/// The components of the path `s`, as `Path::components` yields them on Unix.
pub fn path_components(s: &str) -> (res: Vec<Vec<char>>)
    ensures
        views(res@) == components(s@),
{
    let cs = chars_of(s);
    let parts = split_pieces(&cs, '/');
    assert(views(parts@).len() >= 1) by {
        lemma_split_nonempty(cs@, '/');
    }
    let dot: Vec<char> = vec!['.'];
    assert(dot@ == seq!['.']);
    assert(views(parts@)[0] == parts@[0]@);
    if cs.len() > 0 && cs[0] == '/' {
        let first: Vec<char> = vec!['/'];
        assert(first@ == seq!['/']);
        let mut res: Vec<Vec<char>> = Vec::new();
        res.push(first);
        let mut rest = named_pieces(&parts, 1);
        assert(views(parts@).subrange(1, parts.len() as int) == views(parts@).drop_first());
        let ghost r0 = views(res@);
        let ghost rr = views(rest@);
        assert(r0 == seq![seq!['/']]);
        res.append(&mut rest);
        assert(views(res@) == r0 + rr);
        res
    } else if chars_eq(&parts[0], &dot) {
        let first: Vec<char> = vec!['.'];
        assert(first@ == seq!['.']);
        let mut res: Vec<Vec<char>> = Vec::new();
        res.push(first);
        let mut rest = named_pieces(&parts, 1);
        assert(views(parts@).subrange(1, parts.len() as int) == views(parts@).drop_first());
        let ghost r0 = views(res@);
        let ghost rr = views(rest@);
        assert(r0 == seq![seq!['.']]);
        res.append(&mut rest);
        assert(views(res@) == r0 + rr);
        res
    } else {
        let res = named_pieces(&parts, 0);
        assert(views(parts@).subrange(0, parts.len() as int) == views(parts@));
        res
    }
}

pub proof fn lemma_split_nonempty(s: Seq<char>, sep: char)
    ensures
        split_on(s, sep).len() >= 1,
    decreases s.len(),
{
    if s.len() > 0 {
        lemma_split_nonempty(s.drop_last(), sep);
    }
}

/// Whether the components `a` come first in the components `b`.
pub fn components_prefix(a: &Vec<Vec<char>>, b: &Vec<Vec<char>>) -> (res: bool)
    ensures
        res == is_prefix_of(views(a@), views(b@)),
{
    if b.len() < a.len() {
        return false;
    }
    let mut i: usize = 0;
    while i < a.len()
        invariant
            a.len() <= b.len(),
            i <= a.len(),
            forall|k: int| 0 <= k < i ==> #[trigger] views(a@)[k] == views(b@)[k],
        decreases a.len() - i,
    {
        if !chars_eq(&a[i], &b[i]) {
            assert(views(a@)[i as int] != views(b@)[i as int]);
            return false;
        }
        i = i + 1;
    }
    true
}

} // verus!

verus! {

/// Splitting `s` followed by text without separators extends the last piece of `s`.
pub proof fn lemma_split_append(s: Seq<char>, t: Seq<char>, sep: char)
    requires
        !t.contains(sep),
    ensures
        split_on(s + t, sep) == split_on(s, sep).update(
            split_on(s, sep).len() - 1,
            split_on(s, sep).last() + t,
        ),
    decreases t.len(),
{
    lemma_split_nonempty(s, sep);
    if t.len() == 0 {
        assert(s + t == s);
        assert(split_on(s, sep).last() + t == split_on(s, sep).last());
        assert(split_on(s, sep).update(split_on(s, sep).len() - 1, split_on(s, sep).last())
            == split_on(s, sep));
    } else {
        let t0 = t.drop_last();
        assert(!t0.contains(sep)) by {
            if t0.contains(sep) {
                let k = choose|k: int| 0 <= k < t0.len() && t0[k] == sep;
                assert(t[k] == sep);
            }
        }
        lemma_split_append(s, t0, sep);
        assert((s + t).drop_last() == s + t0);
        assert((s + t).last() == t.last());
        assert(t.last() != sep) by {
            assert(t[t.len() - 1] == t.last());
        }
        assert(split_on(s, sep).last() + t == (split_on(s, sep).last() + t0).push(t.last()));
    }
}

/// Dropping empty pieces and `.` keeps a named piece appended at the end.
pub proof fn lemma_keep_named_push(ps: Seq<Seq<char>>, n: Seq<char>)
    ensures
        (n.len() == 0 || n == seq!['.']) ==> keep_named(ps.push(n)) == keep_named(ps),
        !(n.len() == 0 || n == seq!['.']) ==> keep_named(ps.push(n)) == keep_named(ps).push(n),
{
    assert(ps.push(n).drop_last() == ps);
}

/// A name without separators that is not empty and not `.`, pushed onto a
/// non-empty path, becomes one more component at the end of the path.
pub proof fn lemma_push_child(p: Seq<char>, n: Seq<char>)
    requires
        p.len() > 0,
        n.len() > 0,
        !n.contains('/'),
        n != seq!['.'],
    ensures
        components(path_push(p, n)) == components(p).push(n),
{
    let q = path_push(p, n);
    assert(!(n[0] == '/')) by {
        assert(!n.contains('/'));
        if n[0] == '/' {
            assert(n.contains('/'));
        }
    }
    lemma_split_nonempty(p, '/');
    let sp = split_on(p, '/');
    if p.last() == '/' {
        let p0 = p.drop_last();
        assert(p0.push('/') == p);
        lemma_split_nonempty(p0, '/');
        let sp0 = split_on(p0, '/');
        assert(sp == sp0.push(Seq::<char>::empty()));
        assert(q == p + n);
        lemma_split_append(p, n, '/');
        assert(sp.last() + n == n);
        assert(split_on(q, '/') == sp0.push(n));
        assert(q[0] == p[0]);
        lemma_keep_named_push(sp0, n);
        lemma_keep_named_push(sp0, Seq::<char>::empty());
        assert(sp0.push(n).drop_first() == sp0.drop_first().push(n));
        assert(sp0.push(Seq::<char>::empty()).drop_first() == sp0.drop_first().push(
            Seq::<char>::empty(),
        ));
        lemma_keep_named_push(sp0.drop_first(), n);
        lemma_keep_named_push(sp0.drop_first(), Seq::<char>::empty());
        assert(sp0.push(n)[0] == sp0[0]);
        assert(sp[0] == sp0[0]);
        assert(components(q) =~= components(p).push(n));
    } else {
        assert(q == p.push('/') + n);
        assert(p.push('/').drop_last() == p);
        let sq0 = split_on(p.push('/'), '/');
        assert(sq0 == sp.push(Seq::<char>::empty()));
        lemma_split_append(p.push('/'), n, '/');
        assert(Seq::<char>::empty() + n == n);
        assert(split_on(q, '/') == sp.push(n));
        assert(q[0] == p[0]);
        lemma_keep_named_push(sp, n);
        assert(sp.push(n).drop_first() == sp.drop_first().push(n));
        lemma_keep_named_push(sp.drop_first(), n);
        assert(sp.push(n)[0] == sp[0]);
        assert(components(q) =~= components(p).push(n));
    }
}

/// The extension of a file name, as `Path::extension` finds it: the text after
/// the last dot, unless the name is `..` or its only dot is the first character.
pub open spec fn extension_of(name: Seq<char>) -> Option<Seq<char>> {
    if name == seq!['.', '.'] {
        None
    } else if exists|i: int| 0 < i < name.len() && name[i] == '.' {
        let i = choose|i: int|
            0 < i < name.len() && name[i] == '.' && forall|j: int| i < j < name.len() ==> name[j] != '.';
        Some(name.subrange(i + 1, name.len() as int))
    } else {
        None
    }
}

/// The extensions of the audio files a folder upload picks up.
pub open spec fn is_audio_extension(ext: Seq<char>) -> bool {
    ext == "wav"@ || ext == "flac"@ || ext == "alac"@ || ext == "mp3"@ || ext == "ogg"@
        || ext == "aac"@ || ext == "m4a"@
}

/// Whether a file, by the extension of its name, is one a folder upload sends.
pub fn is_audio_file(name: &str) -> (res: bool)
    ensures
        res == (extension_of(name@) matches Some(e) && is_audio_extension(e)),
{
    let cs = chars_of(name);
    if cs.len() == 2 && cs[0] == '.' && cs[1] == '.' {
        assert(cs@ == seq!['.', '.']);
        return false;
    }
    assert(name@ != seq!['.', '.']) by {
        if name@ == seq!['.', '.'] {
            assert(cs@[0] == '.' && cs@[1] == '.');
        }
    }
    let mut i: usize = cs.len();
    while i > 1
        invariant
            i <= cs@.len(),
            cs@ == name@,
            name@ != seq!['.', '.'],
            forall|j: int| i <= j < cs@.len() ==> cs@[j] != '.',
        decreases i,
    {
        if cs[i - 1] == '.' {
            let ghost k = (i - 1) as int;
            assert(0 < k < name@.len() && name@[k] == '.');
            let ghost c = choose|c: int|
                0 < c < name@.len() && name@[c] == '.' && forall|j: int| c < j < name@.len() ==> name@[j] != '.';
            assert(c == k) by {
                if c < k {
                    assert(name@[k] != '.');
                }
                if c > k {
                    assert(name@[c] != '.');
                }
            }
            assert(extension_of(name@) == Some(name@.subrange(i as int, name@.len() as int)));
            let mut ext: Vec<char> = Vec::new();
            let mut j: usize = i;
            while j < cs.len()
                invariant
                    i <= j <= cs@.len(),
                    cs@ == name@,
                    extension_of(name@) == Some(name@.subrange(i as int, name@.len() as int)),
                    ext@ == cs@.subrange(i as int, j as int),
                decreases cs@.len() - j,
            {
                ext.push(cs[j]);
                j = j + 1;
                assert(ext@ == cs@.subrange(i as int, j as int));
            }
            let e = crate::text::string_of(&ext);
            let s = e.as_str();
            assert(extension_of(name@) == Some(s@));
            return crate::text::str_eq(s, "wav") || crate::text::str_eq(s, "flac")
                || crate::text::str_eq(s, "alac") || crate::text::str_eq(s, "mp3")
                || crate::text::str_eq(s, "ogg") || crate::text::str_eq(s, "aac")
                || crate::text::str_eq(s, "m4a");
        }
        i = i - 1;
    }
    assert(!(exists|k: int| 0 < k < name@.len() && name@[k] == '.'));
    false
}

} // verus!
