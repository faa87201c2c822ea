//! Text as the command line hands it over: comparing it, cutting it at a
//! separator, and reading the parts of a path.
use vstd::prelude::*;

verus! {

/// The index of the first `c` in `s`, or the length of `s` where there is none.
pub open spec fn position(s: Seq<char>, c: char) -> nat
    decreases s.len(),
{
    if s.len() == 0 || s[0] == c {
        0
    } else {
        1 + position(s.skip(1), c)
    }
}

/// The parts of `s` between the separators `sep`, in order. Text without a
/// separator is its own single part.
pub open spec fn pieces(s: Seq<char>, sep: char) -> Seq<Seq<char>>
    decreases s.len(),
{
    let i = position(s, sep) as int;
    if i >= s.len() {
        seq![s]
    } else {
        seq![s.take(i)] + pieces(s.skip(i + 1), sep)
    }
}

/// `parts` with a `sep` between every two neighbours.
pub open spec fn joined(parts: Seq<Seq<char>>, sep: char) -> Seq<char>
    decreases parts.len(),
{
    if parts.len() == 0 {
        Seq::empty()
    } else if parts.len() == 1 {
        parts[0]
    } else {
        parts[0] + seq![sep] + joined(parts.skip(1), sep)
    }
}

/// What stands before and after the first `sep` in `s`, if there is one.
pub open spec fn pair(s: Seq<char>, sep: char) -> Option<(Seq<char>, Seq<char>)> {
    let i = position(s, sep) as int;
    if i >= s.len() {
        None
    } else {
        Some((s.take(i), s.skip(i + 1)))
    }
}

/// The texts that a list of string slices holds.
pub open spec fn texts(v: Seq<&str>) -> Seq<Seq<char>> {
    Seq::new(v.len(), |i: int| v[i]@)
}

/// The first `c` in `s` is where there is one and none before it.
pub proof fn lemma_position(s: Seq<char>, c: char, i: int)
    requires
        0 <= i <= s.len(),
        forall|j: int| 0 <= j < i ==> s[j] != c,
        i < s.len() ==> s[i] == c,
    ensures
        position(s, c) == i,
    decreases s.len(),
{
    if s.len() > 0 && s[0] != c {
        lemma_position(s.skip(1), c, i - 1);
    }
}

proof fn lemma_position_bounds(s: Seq<char>, c: char)
    ensures
        position(s, c) <= s.len(),
        position(s, c) < s.len() ==> s[position(s, c) as int] == c,
        forall|j: int| 0 <= j < position(s, c) ==> s[j] != c,
    decreases s.len(),
{
    if s.len() > 0 && s[0] != c {
        lemma_position_bounds(s.skip(1), c);
        assert forall|j: int| 0 <= j < position(s, c) implies s[j] != c by {
            if j > 0 {
                assert(s.skip(1)[j - 1] == s[j]);
            }
        }
    }
}

/// Cutting text at a separator loses nothing: there is at least one part, no
/// part holds the separator, and joining the parts gives the text back.
pub proof fn lemma_pieces_join(s: Seq<char>, sep: char)
    ensures
        pieces(s, sep).len() >= 1,
        forall|k: int, j: int|
            #![trigger pieces(s, sep)[k][j]]
            0 <= k < pieces(s, sep).len() && 0 <= j < pieces(s, sep)[k].len()
                ==> pieces(s, sep)[k][j] != sep,
        joined(pieces(s, sep), sep) == s,
    decreases s.len(),
{
    lemma_position_bounds(s, sep);
    let i = position(s, sep) as int;
    if i < s.len() {
        let rest = s.skip(i + 1);
        lemma_pieces_join(rest, sep);
        assert(pieces(s, sep).skip(1) =~= pieces(rest, sep));
        assert(s.take(i) + seq![sep] + rest =~= s);
        assert forall|k: int, j: int|
            #![trigger pieces(s, sep)[k][j]]
            0 <= k < pieces(s, sep).len() && 0 <= j < pieces(s, sep)[k].len() implies pieces(
            s,
            sep,
        )[k][j] != sep by {
            if k > 0 {
                assert(pieces(s, sep)[k] == pieces(rest, sep)[k - 1]);
            }
        }
    }
}

/// A key and a value written with a separator between them are read back as
/// they were, where the key does not hold the separator.
pub proof fn lemma_pair_of_key_and_value(key: Seq<char>, value: Seq<char>, sep: char)
    requires
        !key.contains(sep),
    ensures
        pair(key + seq![sep] + value, sep) == Some((key, value)),
{
    let s = key + seq![sep] + value;
    assert forall|j: int| 0 <= j < key.len() implies s[j] != sep by {
        assert(s[j] == key[j]);
    }
    lemma_position(s, sep, key.len() as int);
    assert(s.take(key.len() as int) =~= key);
    assert(s.skip(key.len() as int + 1) =~= value);
}

/// Cutting text at a separator gives the parts before it and the parts behind
/// it, and text without a separator is not cut.
pub proof fn lemma_pieces_of_two_texts(a: Seq<char>, b: Seq<char>, sep: char)
    ensures
        pieces(a + seq![sep] + b, sep) == pieces(a, sep) + pieces(b, sep),
        !a.contains(sep) ==> pieces(a, sep) == seq![a],
    decreases a.len(),
{
    let s = a + seq![sep] + b;
    lemma_position_bounds(a, sep);
    let i = position(a, sep) as int;
    assert forall|j: int| 0 <= j < i implies s[j] != sep by {
        assert(s[j] == a[j]);
    }
    lemma_position(s, sep, i);
    assert(s.take(i) =~= a.take(i));
    if i >= a.len() {
        assert(a.take(i) =~= a);
        assert(s.skip(i + 1) =~= b);
        assert(pieces(s, sep) =~= pieces(a, sep) + pieces(b, sep));
    } else {
        let rest = a.skip(i + 1);
        assert(s.skip(i + 1) =~= rest + seq![sep] + b);
        lemma_pieces_of_two_texts(rest, b, sep);
        assert(pieces(s, sep) =~= pieces(a, sep) + pieces(b, sep));
        assert(a.contains(a[i]));
    }
}

/// Text is a key and a value exactly if it holds the separator. The key ends
/// before the first one, and the two with the separator between them are the
/// text.
pub proof fn lemma_pair_is_the_text(s: Seq<char>, sep: char)
    ensures
        pair(s, sep) is None <==> !s.contains(sep),
        pair(s, sep) matches Some((key, value)) ==> key + seq![sep] + value == s && !key.contains(
            sep,
        ),
{
    lemma_position_bounds(s, sep);
    let i = position(s, sep) as int;
    if i < s.len() {
        assert(s.contains(s[i]));
        assert(s.take(i) + seq![sep] + s.skip(i + 1) =~= s);
        if s.take(i).contains(sep) {
            let j = choose|j: int| 0 <= j < i && s.take(i)[j] == sep;
            assert(s[j] == sep);
        }
    } else if s.contains(sep) {
        let j = choose|j: int| 0 <= j < s.len() && s[j] == sep;
        assert(s[j] != sep);
    }
}

proof fn lemma_filter_of_two<A>(a: Seq<A>, b: Seq<A>, p: spec_fn(A) -> bool)
    ensures
        (a + b).filter(p) == a.filter(p) + b.filter(p),
    decreases b.len(),
{
    reveal(Seq::filter);
    if b.len() == 0 {
        assert(a + b =~= a);
        assert(a.filter(p) + b.filter(p) =~= a.filter(p));
    } else {
        lemma_filter_of_two(a, b.drop_last(), p);
        assert((a + b).drop_last() =~= a + b.drop_last());
        assert((a + b).filter(p) =~= a.filter(p) + b.filter(p));
    }
}

/// The named parts of a path are those of what stands before a slash and those
/// of what stands behind it. Text without a slash is one part, unless it is
/// empty or a dot, which name nothing.
pub proof fn lemma_segments_of_two_paths(a: Seq<char>, b: Seq<char>)
    ensures
        segments(a + seq!['/'] + b) == segments(a) + segments(b),
        !a.contains('/') && a.len() > 0 && a != "."@ ==> segments(a) == seq![a],
        a.len() == 0 || a == "."@ ==> segments(a).len() == 0,
{
    let named = |p: Seq<char>| p.len() > 0 && p != "."@;
    lemma_pieces_of_two_texts(a, b, '/');
    lemma_filter_of_two(pieces(a, '/'), pieces(b, '/'), named);
    reveal_strlit(".");
    assert("."@ =~= seq!['.']);
    if !a.contains('/') {
        lemma_filter_of_one(a, named);
    }
}

proof fn lemma_filter_of_one<A>(a: A, p: spec_fn(A) -> bool)
    ensures
        p(a) ==> seq![a].filter(p) == seq![a],
        !p(a) ==> seq![a].filter(p).len() == 0,
{
    reveal(Seq::filter);
    let none = Seq::<A>::empty();
    assert(none.filter(p).len() == 0);
    assert(seq![a].drop_last() =~= none);
    assert(seq![a].last() == a);
    if p(a) {
        assert(seq![a].filter(p) =~= seq![a]);
    }
}

proof fn lemma_segments_below(dir: Seq<char>, file: Seq<char>)
    ensures
        segments(below(dir, file)) == segments(dir) + segments(file),
{
    reveal_strlit("/");
    assert("/"@ =~= seq!['/']);
    let all = below(dir, file);
    let empty = Seq::<char>::empty();
    let named = segments(file);
    assert(segments(empty).len() == 0) by {
        lemma_segments_of_two_paths(empty, empty);
    }
    if dir.len() == 0 {
        assert(dir == empty);
        assert(all == file);
        assert(segments(dir) + named == named);
    } else if dir.last() == '/' {
        let short = dir.drop_last();
        assert(dir == short + seq!['/'] + empty);
        assert(all == short + seq!['/'] + file);
        assert(segments(dir) == segments(short) + segments(empty)) by {
            lemma_segments_of_two_paths(short, empty);
        }
        assert(segments(short) + segments(empty) == segments(short));
        assert(segments(all) == segments(short) + named) by {
            lemma_segments_of_two_paths(short, file);
        }
    } else {
        assert(all == dir + seq!['/'] + file);
        lemma_segments_of_two_paths(dir, file);
    }
}

/// A file below a directory has the parts of the directory and then its own,
/// and so it is called what it was called before. The path starts with that
/// of the directory and ends with that of the file.
pub proof fn lemma_file_is_below_its_directory(dir: Seq<char>, file: Seq<char>)
    ensures
        segments(below(dir, file)) == segments(dir) + segments(file),
        segments(file).len() > 0 ==> file_name(below(dir, file)) == file_name(file),
        dir.len() <= below(dir, file).len() - file.len() <= dir.len() + 1,
        below(dir, file).take(dir.len() as int) == dir,
        below(dir, file).skip(below(dir, file).len() - file.len()) == file,
        dir.len() > 0 ==> below(dir, file)[below(dir, file).len() - file.len() - 1] == '/',
{
    reveal_strlit("/");
    assert("/"@ =~= seq!['/']);
    let all = below(dir, file);
    lemma_segments_below(dir, file);
    assert(all.skip(all.len() - file.len()) =~= file);
    assert(all.take(dir.len() as int) =~= dir);
    if segments(file).len() > 0 {
        assert((segments(dir) + segments(file)).last() == segments(file).last());
    }
}

/// A path is named by its last part, but for one that leads back up.
pub proof fn lemma_path_is_named_by_its_end(dir: Seq<char>, name: Seq<char>)
    requires
        !name.contains('/'),
    ensures
        name.len() > 0 && name != "."@ && name != ".."@ ==> file_name(dir + seq!['/'] + name)
            == Some(name),
        name == ".."@ ==> file_name(dir + seq!['/'] + name) is None,
        name.len() == 0 || name == "."@ ==> file_name(dir + seq!['/'] + name) == file_name(dir),
        has_root(seq!['/'] + name),
        !has_root(name),
{
    lemma_segments_of_two_paths(dir, name);
    lemma_segments_of_two_paths(name, name);
    reveal_strlit(".");
    reveal_strlit("..");
    assert("."@.len() == 1 && ".."@.len() == 2);
    let all = dir + seq!['/'] + name;
    if name.len() == 0 || name == "."@ {
        assert(segments(dir) + segments(name) =~= segments(dir));
    } else {
        assert(segments(all).last() == name);
    }
    if name.len() > 0 {
        assert(name.contains(name[0]));
    }
}

/// Whether the two texts are the same.
pub fn same(a: &str, b: &str) -> (r: bool)
    ensures
        r == (a@ == b@),
{
    a.to_owned() == b.to_owned()
}

/// The text `a` followed by the text `b`.
pub fn concat(a: &str, b: &str) -> (r: String)
    ensures
        r@ == a@ + b@,
{
    let mut s = a.to_owned();
    s.append(b);
    s
}

/// Cuts `s` at every `sep`.
pub fn split<'a>(s: &'a str, sep: char) -> (r: Vec<&'a str>)
    ensures
        texts(r@) == pieces(s@, sep),
        r@.len() >= 1,
{
    let mut parts: Vec<&'a str> = Vec::new();
    let mut start: usize = 0;
    let mut i: usize = 0;
    let n: usize = s.unicode_len();
    assert(s@.skip(0) =~= s@);
    assert(texts(parts@) + pieces(s@, sep) =~= pieces(s@, sep));
    for c in it: s.chars()
        invariant
            n == s@.len(),
            it.seq() == s@,
            i == it.index(),
            start <= i <= n,
            forall|j: int| start <= j < i ==> s@[j] != sep,
            texts(parts@) + pieces(s@.skip(start as int), sep) == pieces(s@, sep),
    {
        if c == sep {
            let part = s.substring_char(start, i);
            proof {
                let tail = s@.skip(start as int);
                assert forall|j: int| 0 <= j < i - start implies tail[j] != sep by {
                    assert(tail[j] == s@[start + j]);
                }
                assert(tail[i - start] == s@[i as int]);
                lemma_position(tail, sep, i - start);
                assert(tail.take(i - start) =~= part@);
                assert(tail.skip(i - start + 1) =~= s@.skip(i + 1));
                assert(texts(parts@.push(part)) =~= texts(parts@).push(part@));
                assert(texts(parts@).push(part@) + pieces(s@.skip(i + 1), sep) =~= texts(parts@)
                    + pieces(tail, sep));
            }
            parts.push(part);
            start = i + 1;
        }
        i += 1;
    }
    let part = s.substring_char(start, n);
    proof {
        let tail = s@.skip(start as int);
        assert forall|j: int| 0 <= j < tail.len() implies tail[j] != sep by {
            assert(tail[j] == s@[start + j]);
        }
        lemma_position(tail, sep, tail.len() as int);
        assert(tail =~= part@);
        assert(texts(parts@.push(part)) =~= texts(parts@) + pieces(tail, sep));
    }
    parts.push(part);
    parts
}

/// Cuts `s` at its first `sep`.
pub fn split_pair<'a>(s: &'a str, sep: char) -> (r: Option<(&'a str, &'a str)>)
    ensures
        match r {
            Some((key, value)) => pair(s@, sep) == Some((key@, value@)),
            None => pair(s@, sep) is None,
        },
{
    let n: usize = s.unicode_len();
    let mut i: usize = 0;
    for c in it: s.chars()
        invariant
            n == s@.len(),
            it.seq() == s@,
            i == it.index(),
            i <= n,
            forall|j: int| 0 <= j < i ==> s@[j] != sep,
    {
        if c == sep {
            proof {
                lemma_position(s@, sep, i as int);
                assert(s@.subrange(0, i as int) =~= s@.take(i as int));
                assert(s@.subrange(i + 1, n as int) =~= s@.skip(i + 1));
            }
            return Some((s.substring_char(0, i), s.substring_char(i + 1, n)));
        }
        i += 1;
    }
    proof {
        lemma_position(s@, sep, n as int);
    }
    None
}

/// The named parts of a path: what stands between its slashes, without empty
/// parts and without `.`.
pub open spec fn segments(path: Seq<char>) -> Seq<Seq<char>> {
    pieces(path, '/').filter(|p: Seq<char>| p.len() > 0 && p != "."@)
}

/// Whether the path starts at the root.
pub open spec fn has_root(path: Seq<char>) -> bool {
    path.len() > 0 && path[0] == '/'
}

/// The last part of a path, if the path ends in a name.
pub open spec fn file_name(path: Seq<char>) -> Option<Seq<char>> {
    let names = segments(path);
    if names.len() == 0 || names.last() == ".."@ {
        None
    } else {
        Some(names.last())
    }
}

/// The path that `file`, a path without a root, has below `dir`.
pub open spec fn below(dir: Seq<char>, file: Seq<char>) -> Seq<char> {
    if dir.len() == 0 || dir.last() == '/' {
        dir + file
    } else {
        dir + "/"@ + file
    }
}

/// The named parts of `path`.
pub fn path_segments<'a>(path: &'a str) -> (r: Vec<&'a str>)
    ensures
        texts(r@) == segments(path@),
{
    let parts = split(path, '/');
    let ghost all = pieces(path@, '/');
    let ghost named = |p: Seq<char>| p.len() > 0 && p != "."@;
    let mut kept: Vec<&'a str> = Vec::new();
    let n: usize = parts.len();
    let mut i: usize = 0;
    assert(all.take(0) =~= Seq::empty());
    assert(texts(kept@) =~= all.take(0).filter(named)) by {
        reveal(Seq::filter);
    }
    while i < n
        invariant
            n == parts@.len(),
            i <= n,
            texts(parts@) == all,
            named == (|p: Seq<char>| p.len() > 0 && p != "."@),
            texts(kept@) == all.take(i as int).filter(named),
        decreases n - i,
    {
        let part = parts[i];
        let keep = !part.is_empty() && !same(part, ".");
        proof {
            reveal(Seq::filter);
            assert(texts(parts@)[i as int] == part@);
            assert(all.take(i + 1).drop_last() =~= all.take(i as int));
            assert(all.take(i + 1).last() == part@);
            assert(texts(kept@.push(part)) =~= texts(kept@).push(part@));
        }
        if keep {
            kept.push(part);
        }
        i += 1;
    }
    assert(all.take(n as int) =~= all);
    kept
}

/// Whether the path starts at the root.
pub fn path_has_root(path: &str) -> (r: bool)
    ensures
        r == has_root(path@),
{
    !path.is_empty() && path.get_char(0) == '/'
}

/// The last part of a path, if the path ends in a name.
pub fn path_file_name<'a>(path: &'a str) -> (r: Option<&'a str>)
    ensures
        match r {
            Some(name) => file_name(path@) == Some(name@),
            None => file_name(path@) is None,
        },
{
    let names = path_segments(path);
    assert(texts(names@).len() == names@.len());
    let n: usize = names.len();
    if n == 0 {
        return None;
    }
    let last = names[n - 1];
    assert(texts(names@).last() == last@);
    if same(last, "..") {
        None
    } else {
        Some(last)
    }
}

/// Whether the last part of the path is `name`.
pub fn path_ends_with(path: &str, name: &str) -> (r: bool)
    ensures
        r == (segments(path@).len() > 0 && segments(path@).last() == name@),
{
    let names = path_segments(path);
    assert(texts(names@).len() == names@.len());
    let n: usize = names.len();
    if n == 0 {
        return false;
    }
    let last = names[n - 1];
    assert(texts(names@).last() == last@);
    same(last, name)
}

/// The path that `file`, a path without a root, has below `dir`.
pub fn path_below(dir: &str, file: &str) -> (r: String)
    ensures
        r@ == below(dir@, file@),
{
    let n: usize = dir.unicode_len();
    if n == 0 || dir.get_char(n - 1) == '/' {
        concat(dir, file)
    } else {
        let base = concat(dir, "/");
        concat(base.as_str(), file)
    }
}

} // verus!
