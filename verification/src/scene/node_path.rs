use vstd::prelude::*;

verus! {

/// Splits a character sequence at every `'/'`, keeping empty pieces:
/// `"a//b"` gives `["a", "", "b"]` and `""` gives `[""]`.
pub open spec fn split_slash(s: Seq<char>) -> Seq<Seq<char>>
    decreases s.len(),
{
    if s.len() == 0 {
        seq![Seq::<char>::empty()]
    } else {
        let rest = split_slash(s.drop_first());
        if s[0] == '/' {
            seq![Seq::<char>::empty()] + rest
        } else {
            rest.update(0, seq![s[0]] + rest[0])
        }
    }
}

/// Splitting always yields at least one piece.
pub proof fn lemma_split_slash_len(s: Seq<char>)
    ensures
        split_slash(s).len() >= 1,
    decreases s.len(),
{
    if s.len() > 0 {
        lemma_split_slash_len(s.drop_first());
    }
}

/// The segments that a textual path names: the pieces between slashes,
/// with a leading empty piece (from a leading `'/'` or an empty text) dropped.
pub open spec fn parse_path(s: Seq<char>) -> Seq<Seq<char>> {
    let pieces = split_slash(s);
    if pieces[0].len() == 0 {
        pieces.drop_first()
    } else {
        pieces
    }
}

/// The text of a path: every segment preceded by a `'/'`.
pub open spec fn format_path(segs: Seq<Seq<char>>) -> Seq<char>
    decreases segs.len(),
{
    if segs.len() == 0 {
        Seq::<char>::empty()
    } else {
        format_path(segs.drop_last()) + seq!['/'] + segs.last()
    }
}

/// Splitting a concatenation joins the last piece of the left part with the
/// first piece of the right part.
pub proof fn lemma_split_slash_concat(a: Seq<char>, b: Seq<char>)
    ensures
        split_slash(a + b) == split_slash(a).drop_last() + seq![split_slash(a).last() + split_slash(b)[0]]
            + split_slash(b).drop_first(),
    decreases a.len(),
{
    lemma_split_slash_len(a);
    lemma_split_slash_len(b);
    let sa = split_slash(a);
    let sb = split_slash(b);
    if a.len() == 0 {
        assert(a + b =~= b);
        assert(sa =~= seq![Seq::<char>::empty()]);
        assert(sa.last() + sb[0] =~= sb[0]);
        assert(sa.drop_last() + seq![sa.last() + sb[0]] + sb.drop_first() =~= sb);
    } else {
        let c = a[0];
        let a1 = a.drop_first();
        lemma_split_slash_concat(a1, b);
        lemma_split_slash_len(a1);
        let s1 = split_slash(a1);
        assert((a + b).drop_first() =~= a1 + b);
        assert((a + b)[0] == c);
        let r = split_slash(a1 + b);
        if c == '/' {
            assert(split_slash(a + b) == seq![Seq::<char>::empty()] + r);
            assert(sa == seq![Seq::<char>::empty()] + s1);
            assert(sa.drop_last() =~= seq![Seq::<char>::empty()] + s1.drop_last());
            assert(sa.last() == s1.last());
            assert(split_slash(a + b) =~= sa.drop_last() + seq![sa.last() + sb[0]] + sb.drop_first());
        } else {
            assert(split_slash(a + b) == r.update(0, seq![c] + r[0]));
            assert(sa == s1.update(0, seq![c] + s1[0]));
            if s1.len() == 1 {
                assert(r[0] == s1.last() + sb[0]);
                assert(sa.last() == seq![c] + s1[0]);
                assert(seq![c] + (s1[0] + sb[0]) =~= (seq![c] + s1[0]) + sb[0]);
                assert(split_slash(a + b) =~= sa.drop_last() + seq![sa.last() + sb[0]] + sb.drop_first());
            } else {
                assert(r[0] == s1[0]);
                assert(split_slash(a + b) =~= sa.drop_last() + seq![sa.last() + sb[0]] + sb.drop_first());
            }
        }
    }
}

/// A slash-free text splits into itself alone.
pub proof fn lemma_split_slash_free(b: Seq<char>)
    requires
        forall|j: int| 0 <= j < b.len() ==> b[j] != '/',
    ensures
        split_slash(b) == seq![b],
    decreases b.len(),
{
    if b.len() > 0 {
        lemma_split_slash_free(b.drop_first());
        assert(seq![b[0]] + b.drop_first() =~= b);
        assert(split_slash(b) =~= seq![b]);
    } else {
        assert(b =~= Seq::<char>::empty());
        assert(split_slash(b) =~= seq![b]);
    }
}

/// A path of one segment formats as a slash and that segment.
pub proof fn lemma_format_single(x: Seq<char>)
    ensures
        format_path(seq![x]) == seq!['/'] + x,
{
    assert(seq![x].drop_last() =~= Seq::<Seq<char>>::empty());
    assert(seq![x].last() == x);
    assert(format_path(Seq::<Seq<char>>::empty()) == Seq::<char>::empty());
    assert(Seq::<char>::empty() + seq!['/'] =~= seq!['/']);
    assert(format_path(seq![x]) == format_path(Seq::<Seq<char>>::empty()) + seq!['/'] + x);
}

/// Formatting distributes over concatenation of segment lists.
pub proof fn lemma_format_path_concat(a: Seq<Seq<char>>, b: Seq<Seq<char>>)
    ensures
        format_path(a + b) == format_path(a) + format_path(b),
    decreases b.len(),
{
    if b.len() == 0 {
        assert(a + b =~= a);
        assert(format_path(a) + format_path(b) =~= format_path(a));
    } else {
        lemma_format_path_concat(a, b.drop_last());
        assert((a + b).drop_last() =~= a + b.drop_last());
        assert((a + b).last() == b.last());
        assert(format_path(a + b) =~= format_path(a) + format_path(b));
    }
}

/// Splitting formatted slash-free segments gives them back behind one empty piece.
pub proof fn lemma_split_format(segs: Seq<Seq<char>>)
    requires
        slash_free(segs),
    ensures
        split_slash(format_path(segs)) == seq![Seq::<char>::empty()] + segs,
    decreases segs.len(),
{
    if segs.len() == 0 {
        assert(split_slash(Seq::<char>::empty()) =~= seq![Seq::<char>::empty()] + segs);
    } else {
        let init = segs.drop_last();
        let x = segs.last();
        assert(slash_free(init));
        lemma_split_format(init);
        let fi = format_path(init);
        assert(forall|j: int| 0 <= j < x.len() ==> x[j] != '/') by {
            assert forall|j: int| 0 <= j < x.len() implies x[j] != '/' by {
                assert(segs[segs.len() - 1][j] != '/');
            }
        }
        lemma_split_slash_free(x);
        let b = seq!['/'] + x;
        assert(b.drop_first() =~= x);
        assert(split_slash(b) == seq![Seq::<char>::empty()] + seq![x]);
        assert(format_path(segs) =~= fi + b);
        lemma_split_slash_concat(fi, b);
        let sf = split_slash(fi);
        assert(sf.last() + Seq::<char>::empty() =~= sf.last());
        assert(split_slash(format_path(segs)) =~= seq![Seq::<char>::empty()] + segs);
    }
}

/// Formatting the pieces of a text gives the text behind one slash.
pub proof fn lemma_format_split(s: Seq<char>)
    ensures
        format_path(split_slash(s)) == seq!['/'] + s,
    decreases s.len(),
{
    if s.len() == 0 {
        lemma_format_single(Seq::<char>::empty());
        assert(split_slash(s) =~= seq![Seq::<char>::empty()]);
        assert(format_path(split_slash(s)) =~= seq!['/'] + s);
    } else {
        let c = s[0];
        let s1 = s.drop_first();
        lemma_format_split(s1);
        lemma_split_slash_len(s1);
        let q = split_slash(s1);
        assert(q =~= seq![q[0]] + q.drop_first());
        lemma_format_path_concat(seq![q[0]], q.drop_first());
        lemma_format_single(q[0]);
        if c == '/' {
            lemma_format_path_concat(seq![Seq::<char>::empty()], q);
            lemma_format_single(Seq::<char>::empty());
            assert(format_path(split_slash(s)) =~= seq!['/'] + s);
        } else {
            let u = q.update(0, seq![c] + q[0]);
            assert(u =~= seq![seq![c] + q[0]] + q.drop_first());
            lemma_format_path_concat(seq![seq![c] + q[0]], q.drop_first());
            lemma_format_single(seq![c] + q[0]);
            let fr = format_path(q.drop_first());
            assert((seq!['/'] + q[0]) + fr == seq!['/'] + s1);
            assert(((seq!['/'] + q[0]) + fr).drop_first() =~= q[0] + fr);
            assert((seq!['/'] + s1).drop_first() =~= s1);
            assert(s =~= seq![c] + s1);
            assert(format_path(split_slash(s)) =~= seq!['/'] + s);
        }
    }
}

/// The first piece is empty exactly when the text is empty or starts with a slash.
pub proof fn lemma_split_first_empty(s: Seq<char>)
    ensures
        (split_slash(s)[0].len() == 0) == (s.len() == 0 || s[0] == '/'),
{
    if s.len() > 0 {
        lemma_split_slash_len(s.drop_first());
    }
}

/// Parsing the text of a path whose segments hold no slash gives the path back.
pub proof fn lemma_parse_format_roundtrip(segs: Seq<Seq<char>>)
    requires
        slash_free(segs),
    ensures
        parse_path(format_path(segs)) == segs,
{
    lemma_split_format(segs);
    assert((seq![Seq::<char>::empty()] + segs).drop_first() =~= segs);
}

/// Formatting a parsed text gives the text back, with a slash put in front
/// where it had none.
pub proof fn lemma_format_parse_roundtrip(s: Seq<char>)
    ensures
        format_path(parse_path(s)) == if s.len() == 0 || s[0] == '/' { s } else { seq!['/'] + s },
{
    lemma_format_split(s);
    lemma_split_first_empty(s);
    lemma_split_slash_len(s);
    let p = split_slash(s);
    if p[0].len() == 0 {
        assert(p =~= seq![p[0]] + p.drop_first());
        lemma_format_path_concat(seq![p[0]], p.drop_first());
        lemma_format_single(p[0]);
        assert(p[0] =~= Seq::<char>::empty());
        assert((seq!['/'] + format_path(p.drop_first())).drop_first() =~= format_path(p.drop_first()));
        assert((seq!['/'] + s).drop_first() =~= s);
    }
}

/// No segment holds a `'/'`.
pub open spec fn slash_free(segs: Seq<Seq<char>>) -> bool {
    forall|i: int, j: int| 0 <= i < segs.len() && 0 <= j < segs[i].len() ==> segs[i][j] != '/'
}

/// A path through the scene graph: the names of the objects passed on the
/// way down, outermost first.
#[derive(Clone, Debug)]
pub struct NodePath {
    pub path: Vec<String>,
}

impl Default for NodePath {
    /// The empty path, which leads to the object it starts from.
    fn default() -> (out: Self)
        ensures
            out.segments() == Seq::<Seq<char>>::empty(),
    {
        NodePath { path: Vec::new() }
    }
}

pub open spec fn string_seqs(v: Seq<String>) -> Seq<Seq<char>> {
    v.map_values(|s: String| s@)
}

/// Mapping strings to their characters commutes with pushing.
pub proof fn lemma_string_seqs_push(v: Seq<String>, x: String)
    ensures
        string_seqs(v.push(x)) == string_seqs(v).push(x@),
{
    assert(string_seqs(v.push(x)) =~= string_seqs(v).push(x@));
}

impl NodePath {
    /// The segments of the path, as character sequences.
    pub open spec fn segments(&self) -> Seq<Seq<char>> {
        string_seqs(self.path@)
    }

    /// An empty path.
    pub fn new() -> (out: Self)
        ensures
            out.segments() == Seq::<Seq<char>>::empty(),
    {
        NodePath { path: Vec::new() }
    }

    /// Appends one segment at the end.
    pub fn push(&mut self, next: &str)
        ensures
            final(self).segments() == old(self).segments().push(next@),
    {
        self.path.push(String::from_str(next));
        proof {
            assert(final(self).segments() =~= old(self).segments().push(next@));
        }
    }

    /// Appends all segments of `other` at the end.
    pub fn extend(&mut self, other: &NodePath)
        ensures
            final(self).segments() == old(self).segments() + other.segments(),
    {
        let n = other.path.len();
        let ghost start = self.segments();
        for i in 0..n
            invariant
                n == other.path.len(),
                self.segments() == start + other.segments().take(i as int),
        {
            let ghost before = self.path@;
            let item = other.path[i].clone();
            self.path.push(item);
            proof {
                lemma_string_seqs_push(before, item);
                assert(self.segments() =~= start + other.segments().take(i + 1));
            }
        }
        proof {
            assert(other.segments().take(n as int) =~= other.segments());
        }
    }

    /// A copy of the path without its first segment.
    pub fn remove_first(&self) -> (out: Self)
        requires
            self.path.len() > 0,
        ensures
            out.segments() == self.segments().drop_first(),
    {
        let n = self.path.len();
        let mut path: Vec<String> = Vec::new();
        for i in 1..n
            invariant
                n == self.path.len(),
                1 <= n,
                string_seqs(path@) == self.segments().subrange(1, i as int),
        {
            let ghost before = path@;
            let item = self.path[i].clone();
            path.push(item);
            proof {
                lemma_string_seqs_push(before, item);
                assert(string_seqs(path@) =~= self.segments().subrange(1, i + 1));
            }
        }
        proof {
            assert(self.segments().subrange(1, n as int) =~= self.segments().drop_first());
        }
        NodePath { path }
    }

    /// A copy of the path.
    pub fn duplicate(&self) -> (out: Self)
        ensures
            out.segments() == self.segments(),
    {
        let n = self.path.len();
        let mut path: Vec<String> = Vec::new();
        for i in 0..n
            invariant
                n == self.path.len(),
                string_seqs(path@) == self.segments().take(i as int),
        {
            let ghost before = path@;
            let item = self.path[i].clone();
            path.push(item);
            proof {
                lemma_string_seqs_push(before, item);
                assert(string_seqs(path@) =~= self.segments().take(i + 1));
            }
        }
        proof {
            assert(self.segments().take(n as int) =~= self.segments());
        }
        NodePath { path }
    }

    /// Parses a textual path such as `"/path/to/thing"`.
    pub fn from(value: String) -> (out: Self)
        ensures
            out.segments() == parse_path(value@),
    {
        let s = value.as_str();
        let n = s.unicode_len();
        let mut path: Vec<String> = Vec::new();
        let mut start: usize = 0;
        let mut k: usize = 0;
        proof {
            lemma_split_slash_len(s@);
            assert(s@.subrange(0, n as int) =~= s@);
            assert(s@.subrange(0, 0) =~= Seq::<char>::empty());
        }
        while k < n
            invariant
                n == s@.len(),
                s@ == value@,
                start <= k <= n,
                ({
                    let t = split_slash(s@.subrange(k as int, n as int));
                    split_slash(s@) == string_seqs(path@) + seq![s@.subrange(start as int, k as int) + t[0]] + t.drop_first()
                }),
            decreases n - k,
        {
            let c = s.get_char(k);
            let ghost tail = s@.subrange(k as int, n as int);
            proof {
                lemma_split_slash_len(tail);
                lemma_split_slash_len(s@.subrange(k + 1, n as int));
                assert(tail.drop_first() =~= s@.subrange(k + 1, n as int));
                assert(tail[0] == c);
            }
            if c == '/' {
                let piece = s.substring_char(start, k);
                path.push(String::from_str(piece));
                start = k + 1;
                proof {
                    let t1 = split_slash(s@.subrange(k + 1, n as int));
                    assert(split_slash(tail) == seq![Seq::<char>::empty()] + t1);
                    assert(s@.subrange(start as int, k + 1) =~= Seq::<char>::empty());
                    assert(s@.subrange(start as int, k + 1) + t1[0] =~= t1[0]);
                    assert(string_seqs(path@) =~= string_seqs(path@.drop_last()).push(piece@));
                }
            } else {
                proof {
                    let t1 = split_slash(s@.subrange(k + 1, n as int));
                    assert(split_slash(tail) == t1.update(0, seq![c] + t1[0]));
                    assert(s@.subrange(start as int, k + 1) =~= s@.subrange(start as int, k as int).push(c));
                    assert(s@.subrange(start as int, k as int) + (seq![c] + t1[0]) =~= s@.subrange(start as int, k + 1) + t1[0]);
                    assert(t1.update(0, seq![c] + t1[0]).drop_first() =~= t1.drop_first());
                }
            }
            k = k + 1;
        }
        let last = s.substring_char(start, n);
        path.push(String::from_str(last));
        proof {
            let t = split_slash(s@.subrange(n as int, n as int));
            assert(s@.subrange(n as int, n as int) =~= Seq::<char>::empty());
            assert(t =~= seq![Seq::<char>::empty()]);
            assert(last@ + t[0] =~= last@);
            assert(split_slash(s@) =~= string_seqs(path@));
        }
        if path[0].as_str().unicode_len() == 0 {
            path.remove(0);
            proof {
                assert(string_seqs(path@) =~= split_slash(s@).drop_first());
            }
        }
        NodePath { path }
    }

    /// The textual form of the path, such as `"/path/to/thing"`.
    pub fn to_string(&self) -> (out: String)
        ensures
            out@ == format_path(self.segments()),
    {
        let mut out = String::new();
        let n = self.path.len();
        for i in 0..n
            invariant
                n == self.path.len(),
                out@ == format_path(self.segments().take(i as int)),
        {
            out.append("/");
            out.append(self.path[i].as_str());
            proof {
                reveal_strlit("/");
                let segs = self.segments().take(i + 1);
                assert(segs.drop_last() =~= self.segments().take(i as int));
            }
        }
        proof {
            assert(self.segments().take(n as int) =~= self.segments());
        }
        out
    }
}

} // verus!
