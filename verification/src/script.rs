use vstd::prelude::*;

use crate::math::Float3;
use crate::vbo::{digits, push_digits};
use crate::scene::node_path::NodePath;

verus! {

/// A value handed to a script when it runs.
#[derive(Debug)]
pub enum ScriptArg {
    Bool(bool),
    Int(u32),
    Float(u32),
    Vec3(Float3),
    String(String),
    FilePath(String),
    NodePath(NodePath),
    /// A handle of an object of the scene graph.
    NodeReference(usize),
}

/// The value of a script argument with strings and paths taken as characters.
pub enum ScriptArgView {
    Bool(bool),
    Int(u32),
    Float(u32),
    Vec3(Float3),
    String(Seq<char>),
    FilePath(Seq<char>),
    NodePath(Seq<Seq<char>>),
    NodeReference(usize),
}

impl ScriptArg {
    pub open spec fn view(&self) -> ScriptArgView {
        match self {
            ScriptArg::Bool(b) => ScriptArgView::Bool(*b),
            ScriptArg::Int(i) => ScriptArgView::Int(*i),
            ScriptArg::Float(f) => ScriptArgView::Float(*f),
            ScriptArg::Vec3(v) => ScriptArgView::Vec3(*v),
            ScriptArg::String(s) => ScriptArgView::String(s@),
            ScriptArg::FilePath(s) => ScriptArgView::FilePath(s@),
            ScriptArg::NodePath(p) => ScriptArgView::NodePath(p.segments()),
            ScriptArg::NodeReference(r) => ScriptArgView::NodeReference(*r),
        }
    }

    /// A copy of the argument.
    pub fn duplicate(&self) -> (out: Self)
        ensures
            out.view() == self.view(),
    {
        match self {
            ScriptArg::Bool(b) => ScriptArg::Bool(*b),
            ScriptArg::Int(i) => ScriptArg::Int(*i),
            ScriptArg::Float(f) => ScriptArg::Float(*f),
            ScriptArg::Vec3(v) => ScriptArg::Vec3(*v),
            ScriptArg::String(s) => ScriptArg::String(s.clone()),
            ScriptArg::FilePath(s) => ScriptArg::FilePath(s.clone()),
            ScriptArg::NodePath(p) => ScriptArg::NodePath(p.duplicate()),
            ScriptArg::NodeReference(r) => ScriptArg::NodeReference(*r),
        }
    }
}

/// The text that std's `Debug` gives for a string: the string in double
/// quotes, with quotes, backslashes and characters that do not print escaped.
pub uninterp spec fn str_debug_text(s: Seq<char>) -> Seq<char>;

/// Formats a string with std's `Debug` for `str`.
#[verifier::external_body]
fn str_debug(s: &str) -> (r: String)
    ensures
        r@ == str_debug_text(s@),
{
    format!("{:?}", s)
}

/// The `Debug` texts of the strings, separated by `", "`.
pub open spec fn list_text(v: Seq<Seq<char>>) -> Seq<char>
    decreases v.len(),
{
    if v.len() == 0 {
        Seq::empty()
    } else if v.len() == 1 {
        str_debug_text(v[0])
    } else {
        list_text(v.drop_last()) + ", "@ + str_debug_text(v.last())
    }
}

/// The text of `true` or `false`.
pub open spec fn bool_text(b: bool) -> Seq<char> {
    if b {
        "true"@
    } else {
        "false"@
    }
}

/// The text that describes a script argument in errors: its variant and
/// value, written as Rust's `Debug` writes them. A vector is written with
/// the bit patterns of its components, and an object reference as a weak
/// reference.
pub open spec fn arg_text(a: ScriptArgView) -> Seq<char> {
    match a {
        ScriptArgView::Bool(b) => "Bool("@ + bool_text(b) + ")"@,
        ScriptArgView::Int(i) => "Int("@ + digits(i as nat) + ")"@,
        ScriptArgView::Float(f) => "Float("@ + digits(f as nat) + ")"@,
        ScriptArgView::Vec3(v) => "Vec3(Float3 { x: "@ + digits(v.x as nat) + ", y: "@ + digits(
            v.y as nat,
        ) + ", z: "@ + digits(v.z as nat) + " })"@,
        ScriptArgView::String(t) => "String("@ + str_debug_text(t) + ")"@,
        ScriptArgView::FilePath(t) => "FilePath("@ + str_debug_text(t) + ")"@,
        ScriptArgView::NodePath(p) => "NodePath(NodePath { path: ["@ + list_text(p) + "] })"@,
        ScriptArgView::NodeReference(_) => "NodeReference((Weak))"@,
    }
}

/// Appends the `Debug` texts of the strings, separated by `", "`.
fn push_list_text(out: &mut String, v: &Vec<String>)
    ensures
        final(out)@ == old(out)@ + list_text(v@.map_values(|x: String| x@)),
{
    let ghost segs = v@.map_values(|x: String| x@);
    let n = v.len();
    for k in 0..n
        invariant
            n == v@.len(),
            segs == v@.map_values(|x: String| x@),
            out@ == old(out)@ + list_text(segs.take(k as int)),
    {
        let ghost before = out@;
        if k > 0 {
            out.append(", ");
        }
        let t = str_debug(v[k].as_str());
        out.append(t.as_str());
        proof {
            reveal_strlit(", ");
            let p = segs.take(k + 1);
            assert(p.drop_last() =~= segs.take(k as int));
            assert(p.last() == v@[k as int]@);
            if k == 0 {
                assert(segs.take(0) =~= Seq::<Seq<char>>::empty());
                assert(out@ =~= old(out)@ + list_text(p));
            } else {
                assert(out@ =~= before + ", "@ + str_debug_text(v@[k as int]@));
                assert(out@ =~= old(out)@ + list_text(p));
            }
        }
    }
    assert(segs.take(n as int) =~= segs);
}

impl ScriptArg {
    /// The text that describes the argument in errors.
    pub fn debug_text(&self) -> (s: String)
        ensures
            s@ == arg_text(self.view()),
    {
        let mut out = String::new();
        match self {
            ScriptArg::Bool(b) => {
                out.append("Bool(");
                if *b {
                    out.append("true");
                } else {
                    out.append("false");
                }
                out.append(")");
            },
            ScriptArg::Int(i) => {
                out.append("Int(");
                push_digits(&mut out, *i as u64);
                out.append(")");
            },
            ScriptArg::Float(f) => {
                out.append("Float(");
                push_digits(&mut out, *f as u64);
                out.append(")");
            },
            ScriptArg::Vec3(v) => {
                out.append("Vec3(Float3 { x: ");
                push_digits(&mut out, v.x as u64);
                out.append(", y: ");
                push_digits(&mut out, v.y as u64);
                out.append(", z: ");
                push_digits(&mut out, v.z as u64);
                out.append(" })");
            },
            ScriptArg::String(t) => {
                out.append("String(");
                let d = str_debug(t.as_str());
                out.append(d.as_str());
                out.append(")");
            },
            ScriptArg::FilePath(t) => {
                out.append("FilePath(");
                let d = str_debug(t.as_str());
                out.append(d.as_str());
                out.append(")");
            },
            ScriptArg::NodePath(p) => {
                out.append("NodePath(NodePath { path: [");
                push_list_text(&mut out, &p.path);
                out.append("] })");
            },
            ScriptArg::NodeReference(_) => {
                out.append("NodeReference((Weak))");
            },
        }
        proof {
            reveal_strlit("Bool(");
            reveal_strlit("true");
            reveal_strlit("false");
            reveal_strlit(")");
            reveal_strlit("Int(");
            reveal_strlit("Float(");
            reveal_strlit("Vec3(Float3 { x: ");
            reveal_strlit(", y: ");
            reveal_strlit(", z: ");
            reveal_strlit(" })");
            reveal_strlit("String(");
            reveal_strlit("FilePath(");
            reveal_strlit("NodePath(NodePath { path: [");
            reveal_strlit("] })");
            reveal_strlit("NodeReference((Weak))");
        }
        out
    }
}

/// The arguments of one script: values keyed by distinct names.
#[derive(Debug)]
pub struct ScriptArgs {
    entries: Vec<(String, ScriptArg)>,
}

impl ScriptArgs {
    /// The names, in order.
    pub closed spec fn keys(&self) -> Seq<Seq<char>> {
        self.entries@.map_values(|e: (String, ScriptArg)| e.0@)
    }

    /// The values, in the order of `keys`.
    pub closed spec fn values(&self) -> Seq<ScriptArgView> {
        self.entries@.map_values(|e: (String, ScriptArg)| e.1.view())
    }

    /// The names are distinct.
    pub open spec fn wf(&self) -> bool {
        &&& self.keys().len() == self.values().len()
        &&& forall|i: int, j: int|
            0 <= i < j < self.keys().len() ==> self.keys()[i] != self.keys()[j]
    }

    /// The arguments as a map from name to value.
    pub open spec fn view(&self) -> Map<Seq<char>, ScriptArgView> {
        Map::new(
            |k: Seq<char>| self.keys().contains(k),
            |k: Seq<char>| self.values()[self.keys().index_of(k)],
        )
    }

    /// No arguments.
    pub fn new() -> (out: Self)
        ensures
            out.wf(),
            out.keys() == Seq::<Seq<char>>::empty(),
    {
        let out = ScriptArgs { entries: Vec::new() };
        proof {
            assert(out.keys() =~= Seq::<Seq<char>>::empty());
            assert(out.values() =~= Seq::<ScriptArgView>::empty());
        }
        out
    }

    /// The number of arguments.
    pub fn len(&self) -> (n: usize)
        ensures
            n == self.keys().len(),
    {
        self.entries.len()
    }

    /// The position of the argument named `key`, if there is one.
    fn find(&self, key: &str) -> (res: Option<usize>)
        ensures
            match res {
                Some(i) => i < self.keys().len() && self.keys()[i as int] == key@,
                None => !self.keys().contains(key@),
            },
    {
        let n = self.entries.len();
        for i in 0..n
            invariant
                n == self.entries@.len(),
                n == self.keys().len(),
                forall|j: int| 0 <= j < i ==> self.keys()[j] != key@,
        {
            let same = self.entries[i].0.as_str().unicode_len() == key.unicode_len()
                && str_equal(self.entries[i].0.as_str(), key);
            if same {
                return Some(i);
            }
        }
        None
    }

    /// The argument named `key`.
    pub fn get(&self, key: &str) -> (res: Option<&ScriptArg>)
        requires
            self.wf(),
        ensures
            match res {
                Some(a) => self.view().dom().contains(key@) && a.view() == self.view()[key@],
                None => !self.view().dom().contains(key@),
            },
    {
        match self.find(key) {
            Some(i) => {
                proof {
                    lemma_index_of_unique(self.keys(), i as int);
                }
                Some(&self.entries[i].1)
            },
            None => None,
        }
    }

    /// Sets the argument named `key`, replacing an earlier value of that name.
    pub fn insert(&mut self, key: String, value: ScriptArg)
        requires
            old(self).wf(),
        ensures
            final(self).wf(),
            final(self).view() == old(self).view().insert(key@, value.view()),
    {
        let ghost k = key@;
        let ghost v = value.view();
        match self.find(key.as_str()) {
            Some(i) => {
                self.entries.set(i, (key, value));
                proof {
                    assert(self.keys() =~= old(self).keys());
                    assert(self.values() =~= old(self).values().update(i as int, v));
                    lemma_index_of_unique(self.keys(), i as int);
                    assert forall|q: Seq<char>| self.keys().contains(q) && q != k implies
                        self.keys().index_of(q) == old(self).keys().index_of(q) by {}
                    assert(self.view() =~= old(self).view().insert(k, v));
                }
            },
            None => {
                self.entries.push((key, value));
                proof {
                    assert(self.keys() =~= old(self).keys().push(k));
                    assert(self.values() =~= old(self).values().push(v));
                    let n = old(self).keys().len() as int;
                    lemma_index_of_unique(self.keys(), n);
                    assert forall|q: Seq<char>| old(self).keys().contains(q) implies
                        self.keys().index_of(q) == old(self).keys().index_of(q) by {
                        let j = old(self).keys().index_of(q);
                        lemma_index_of_unique(self.keys(), j);
                    }
                    assert forall|q: Seq<char>| #[trigger] self.keys().contains(q) <==> (old(self).keys().contains(q) || q == k) by {
                        if old(self).keys().contains(q) {
                            let j = old(self).keys().index_of(q);
                            assert(self.keys()[j] == q);
                        }
                        if self.keys().contains(q) && q != k {
                            let j = self.keys().index_of(q);
                            assert(j < n);
                            assert(old(self).keys()[j] == q);
                        }
                    }
                    assert(self.view() =~= old(self).view().insert(k, v));
                }
            },
        }
    }

    /// A copy of the arguments.
    pub fn duplicate(&self) -> (out: Self)
        ensures
            out.keys() == self.keys(),
            out.values() == self.values(),
    {
        let n = self.entries.len();
        let mut entries: Vec<(String, ScriptArg)> = Vec::new();
        for i in 0..n
            invariant
                n == self.entries@.len(),
                entries@.len() == i,
                forall|j: int| 0 <= j < i ==> entries@[j].0@ == self.entries@[j].0@
                    && entries@[j].1.view() == self.entries@[j].1.view(),
        {
            entries.push((self.entries[i].0.clone(), self.entries[i].1.duplicate()));
        }
        let out = ScriptArgs { entries };
        proof {
            assert(out.keys() =~= self.keys());
            assert(out.values() =~= self.values());
        }
        out
    }
}

/// The position of an element of a sequence with distinct elements is the
/// position found by `index_of`.
pub proof fn lemma_index_of_unique(s: Seq<Seq<char>>, i: int)
    requires
        0 <= i < s.len(),
        forall|a: int, b: int| 0 <= a < b < s.len() ==> s[a] != s[b],
    ensures
        s.contains(s[i]),
        s.index_of(s[i]) == i,
{
    assert(s.contains(s[i]));
    let j = s.index_of(s[i]);
    assert(s[j] == s[i]);
}

/// Two texts are equal, character by character.
pub fn str_equal(a: &str, b: &str) -> (res: bool)
    ensures
        res == (a@ == b@),
{
    let n = a.unicode_len();
    if n != b.unicode_len() {
        return false;
    }
    for i in 0..n
        invariant
            n == a@.len(),
            n == b@.len(),
            forall|j: int| 0 <= j < i ==> a@[j] == b@[j],
    {
        if a.get_char(i) != b.get_char(i) {
            return false;
        }
    }
    assert(a@ =~= b@);
    true
}

/// A script attached to a scene object: the name it is registered under and
/// its arguments.
#[derive(Debug)]
pub struct ScriptVariant {
    script: String,
    args: ScriptArgs,
}

impl ScriptVariant {
    pub closed spec fn script_name(&self) -> Seq<char> {
        self.script@
    }

    pub closed spec fn args(&self) -> ScriptArgs {
        self.args
    }

    /// A script variant running the script named `script` with `args`.
    pub fn new(script: String, args: ScriptArgs) -> (out: ScriptVariant)
        ensures
            out.script_name() == script@,
            out.args() == args,
    {
        ScriptVariant { script, args }
    }

    /// The name of the script.
    pub fn get_name(&self) -> (out: String)
        ensures
            out@ == self.script_name(),
    {
        self.script.clone()
    }

    /// A copy of the arguments.
    pub fn get_script_args(&self) -> (out: ScriptArgs)
        ensures
            out.keys() == self.args().keys(),
            out.values() == self.args().values(),
    {
        self.args.duplicate()
    }

    /// A copy of the script variant.
    pub fn duplicate(&self) -> (out: Self)
        ensures
            out.script_name() == self.script_name(),
            out.args().keys() == self.args().keys(),
            out.args().values() == self.args().values(),
    {
        ScriptVariant { script: self.script.clone(), args: self.args.duplicate() }
    }
}

} // verus!
