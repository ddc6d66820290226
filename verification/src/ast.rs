//! The surface abstract syntax: lambda terms and top-level sentences.
//! Parsing the surface text is a collaborator's job; the engine consumes
//! these values and hands them back from readback.

use vstd::prelude::*;
use vstd::string::StrSliceExecFns;

verus! {

/// A lambda term.
#[derive(Debug, PartialEq, Eq)]
pub enum Term {
    /// A variable occurrence.
    Sym { vname: String },
    /// An abstraction.
    Lambda { vname: String, body: Box<Term> },
    /// An application.
    App { fun: Box<Term>, arg: Box<Term> },
}

/// Ghost mirror of a lambda term, with names as character sequences: the
/// value a `Term` denotes in specifications.
pub ghost enum TermV {
    Sym(Seq<char>),
    Lam(Seq<char>, Box<TermV>),
    App(Box<TermV>, Box<TermV>),
}

impl Term {
    /// The ghost term this term denotes.
    pub open spec fn deep_view(self) -> TermV
        decreases self,
    {
        match self {
            Term::Sym { vname } => TermV::Sym(vname@),
            Term::Lambda { vname, body } => TermV::Lam(vname@, Box::new((*body).deep_view())),
            Term::App { fun, arg } => TermV::App(
                Box::new((*fun).deep_view()),
                Box::new((*arg).deep_view()),
            ),
        }
    }
}

/// Copy a term; the copy equals the original.
pub fn clone_term(t: &Term) -> (r: Term)
    ensures
        r == *t,
    decreases *t,
{
    match t {
        Term::Sym { vname } => Term::Sym { vname: vname.clone() },
        Term::Lambda { vname, body } => Term::Lambda {
            vname: vname.clone(),
            body: Box::new(clone_term(&**body)),
        },
        Term::App { fun, arg } => Term::App {
            fun: Box::new(clone_term(&**fun)),
            arg: Box::new(clone_term(&**arg)),
        },
    }
}

/// A top-level definition: `let name = term.`
#[derive(Debug)]
pub struct SLet {
    pub vname: String,
    pub body: Box<Term>,
}

/// A top-level term to reduce: `run term.`
#[derive(Debug)]
pub struct SRun {
    pub term: Box<Term>,
}

/// A top-level import: `read path [as name].`
#[derive(Debug)]
pub struct SRead {
    pub path: String,
    pub name: Option<String>,
}

/// A top-level sentence.
#[derive(Debug)]
pub enum Sentence {
    Let(SLet),
    Run(SRun),
    Read(SRead),
}

/// Whitespace as the trim of a `read` path treats it.
pub open spec fn is_ws(c: char) -> bool {
    c == ' ' || c == '\t' || c == '\r' || c == '\n'
}

/// Drop leading whitespace.
pub open spec fn trim_front_spec(s: Seq<char>) -> Seq<char>
    decreases s.len(),
{
    if s.len() > 0 && is_ws(s[0]) {
        trim_front_spec(s.drop_first())
    } else {
        s
    }
}

/// Drop trailing whitespace.
pub open spec fn trim_back_spec(s: Seq<char>) -> Seq<char>
    decreases s.len(),
{
    if s.len() > 0 && is_ws(s[s.len() - 1]) {
        trim_back_spec(s.drop_last())
    } else {
        s
    }
}

/// Leading whitespace up to a non-whitespace position trims away.
proof fn lemma_trim_front(s: Seq<char>, i: int)
    requires
        0 <= i <= s.len(),
        forall|m: int| 0 <= m < i ==> is_ws(s[m]),
        i < s.len() ==> !is_ws(s[i]),
    ensures
        trim_front_spec(s) =~= s.subrange(i, s.len() as int),
    decreases i,
{
    if i > 0 {
        assert(is_ws(s[0]));
        lemma_trim_front(s.drop_first(), i - 1);
        assert(s.drop_first().subrange(i - 1, s.drop_first().len() as int) =~= s.subrange(
            i,
            s.len() as int,
        ));
    } else {
        if s.len() > 0 && is_ws(s[0]) {
            assert(!is_ws(s[0]));
        }
    }
}

/// Trailing whitespace down to a non-whitespace position trims away.
proof fn lemma_trim_back(s: Seq<char>, j: int)
    requires
        0 <= j <= s.len(),
        forall|m: int| j <= m < s.len() ==> is_ws(s[m]),
        j > 0 ==> !is_ws(s[j - 1]),
    ensures
        trim_back_spec(s) =~= s.subrange(0, j),
    decreases s.len() - j,
{
    if j < s.len() {
        assert(is_ws(s[s.len() - 1]));
        lemma_trim_back(s.drop_last(), j);
        assert(s.drop_last() =~= s.subrange(0, s.len() - 1));
        assert(s.drop_last().subrange(0, j) =~= s.subrange(0, j));
    } else {
        if s.len() > 0 && is_ws(s[s.len() - 1]) {
            assert(!is_ws(s[j - 1]));
        }
    }
}

/// Whether the character at position `i` is whitespace.
fn ws_at(s: &str, i: usize) -> (r: bool)
    requires
        i < s@.len(),
    ensures
        r == is_ws(s@[i as int]),
{
    let c = s.get_char(i);
    c == ' ' || c == '\t' || c == '\r' || c == '\n'
}

/// Strip the leading `read` keyword from a raw `read` sentence and trim the
/// whitespace around what remains (the path).
pub fn read_process(rpath: String) -> (r: String)
    requires
        rpath@.len() >= 4,
    ensures
        r@ == trim_back_spec(trim_front_spec(rpath@.subrange(4, rpath@.len() as int))),
{
    let s: &str = rpath.as_str();
    let n: usize = s.unicode_len();
    // Find the first non-whitespace position at or after the keyword.
    let mut i: usize = 4;
    while i < n && ws_at(s, i)
        invariant
            4 <= i <= n,
            n == s@.len(),
            rpath@ == s@,
            rpath@.len() >= 4,
            forall|m: int| 4 <= m < i ==> is_ws(s@[m]),
        decreases n - i,
    {
        i = i + 1;
    }
    // Find the position after the last non-whitespace character.
    let mut j: usize = n;
    while j > i && ws_at(s, j - 1)
        invariant
            i <= j <= n,
            n == s@.len(),
            rpath@ == s@,
            forall|m: int| j <= m < n ==> is_ws(s@[m]),
        decreases j,
    {
        j = j - 1;
    }
    let out = s.substring_char(i, j).to_owned();
    proof {
        let tail = rpath@.subrange(4, rpath@.len() as int);
        lemma_trim_front(tail, i - 4);
        assert(trim_front_spec(tail) =~= rpath@.subrange(i as int, rpath@.len() as int));
        let mid = rpath@.subrange(i as int, rpath@.len() as int);
        lemma_trim_back(mid, j - i);
        assert(trim_back_spec(mid) =~= mid.subrange(0, j - i));
        assert(out@ =~= mid.subrange(0, j - i));
    }
    out
}

} // verus!
