use vstd::prelude::*;

verus! {

broadcast use vstd::std_specs::vec::axiom_vec_index_decreases;

/// The bracket that encloses a group of tokens.
#[derive(Clone, Copy, Debug, PartialEq, Eq, Structural)]
pub enum Delimiter {
    Parenthesis,
    Brace,
    Bracket,
    Invisible,
}

/// An identifier and the handle of its source position.
#[derive(Debug)]
pub struct Ident {
    pub name: String,
    pub span: usize,
}

/// One node of a token stream.
///
/// `span` fields are opaque handles of source positions, chosen by whoever
/// built the tree; the generators only copy them into their output and
/// diagnostics. `joint` on a punctuation character means that the next
/// character follows it without whitespace.
#[derive(Debug)]
pub enum TokenTree {
    Ident(Ident),
    Punct { ch: char, joint: bool, span: usize },
    Literal { text: String, span: usize },
    Group { delimiter: Delimiter, stream: Vec<TokenTree>, span: usize },
}

/// The mathematical value of a `TokenTree`.
pub enum Tok {
    Ident { name: Seq<char>, span: usize },
    Punct { ch: char, joint: bool, span: usize },
    Literal { text: Seq<char>, span: usize },
    Group { delimiter: Delimiter, stream: Seq<Tok>, span: usize },
}

impl Tok {
    pub open spec fn span(self) -> usize {
        match self {
            Tok::Ident { span, .. } => span,
            Tok::Punct { span, .. } => span,
            Tok::Literal { span, .. } => span,
            Tok::Group { span, .. } => span,
        }
    }

    pub open spec fn is_punct(self, c: char) -> bool {
        self matches Tok::Punct { ch, .. } && ch == c
    }

    pub open spec fn is_ident_named(self, n: Seq<char>) -> bool {
        self matches Tok::Ident { name, .. } && name == n
    }

    pub open spec fn is_group_with(self, d: Delimiter) -> bool {
        self matches Tok::Group { delimiter, .. } && delimiter == d
    }
}

impl TokenTree {
    pub open spec fn view(&self) -> Tok
        decreases self,
    {
        match self {
            TokenTree::Ident(id) => Tok::Ident { name: id.name@, span: id.span },
            TokenTree::Punct { ch, joint, span } => Tok::Punct { ch: *ch, joint: *joint, span: *span },
            TokenTree::Literal { text, span } => Tok::Literal { text: text@, span: *span },
            TokenTree::Group { delimiter, stream, span } => Tok::Group {
                delimiter: *delimiter,
                stream: Seq::new(
                    stream.len() as nat,
                    |i: int|
                        if 0 <= i < stream.len() {
                            stream[i].view()
                        } else {
                            Tok::Punct { ch: ' ', joint: false, span: 0 }
                        },
                ),
                span: *span,
            },
        }
    }

    /// The source-position handle of this token.
    pub fn span(&self) -> (r: usize)
        ensures
            r == self@.span(),
    {
        match self {
            TokenTree::Ident(id) => id.span,
            TokenTree::Punct { span, .. } => *span,
            TokenTree::Literal { span, .. } => *span,
            TokenTree::Group { span, .. } => *span,
        }
    }

    /// Whether this token is the punctuation character `c`.
    pub fn is_punct(&self, c: char) -> (r: bool)
        ensures
            r == self@.is_punct(c),
    {
        match self {
            TokenTree::Punct { ch, .. } => *ch == c,
            _ => false,
        }
    }

    /// Whether this token is a group with delimiter `d`.
    pub fn is_group_with(&self, d: Delimiter) -> (r: bool)
        ensures
            r == self@.is_group_with(d),
    {
        match self {
            TokenTree::Group { delimiter, .. } => *delimiter == d,
            _ => false,
        }
    }

    /// Whether this token is an identifier spelled `n`.
    pub fn is_ident_named(&self, n: &String) -> (r: bool)
        ensures
            r == self@.is_ident_named(n@),
    {
        match self {
            TokenTree::Ident(id) => id.name == *n,
            _ => false,
        }
    }
}

/// The mathematical value of a token stream.
pub open spec fn view_stream(s: Seq<TokenTree>) -> Seq<Tok> {
    Seq::new(s.len(), |i: int| s[i]@)
}

/// The stream held by a group token, as the group's view sees it.
pub proof fn lemma_group_stream(t: TokenTree)
    requires
        t is Group,
    ensures
        t@->stream == view_stream(t->stream@),
        decreases_to!(t@ => t@->stream),
{
    assert(t@->stream =~= view_stream(t->stream@));
}

pub proof fn lemma_view_stream_push(s: Seq<TokenTree>, t: TokenTree)
    ensures
        view_stream(s.push(t)) == view_stream(s).push(t@),
{
    assert(view_stream(s.push(t)) =~= view_stream(s).push(t@));
}

pub proof fn lemma_view_stream_concat(a: Seq<TokenTree>, b: Seq<TokenTree>)
    ensures
        view_stream(a + b) == view_stream(a) + view_stream(b),
{
    assert(view_stream(a + b) =~= view_stream(a) + view_stream(b));
}

/// Builds a group token over `stream`.
pub fn make_group(delimiter: Delimiter, stream: Vec<TokenTree>, span: usize) -> (r: TokenTree)
    ensures
        r@ == (Tok::Group { delimiter, stream: view_stream(stream@), span }),
{
    let r = TokenTree::Group { delimiter, stream, span };
    proof {
        lemma_group_stream(r);
    }
    r
}

impl Ident {
    pub fn copy(&self) -> (r: Ident)
        ensures
            r.name@ == self.name@,
            r.span == self.span,
    {
        Ident { name: self.name.clone(), span: self.span }
    }
}

/// A deep copy of `t`.
pub fn copy_tree(t: &TokenTree) -> (r: TokenTree)
    ensures
        r@ == t@,
    decreases t@, 1nat,
{
    match t {
        TokenTree::Ident(id) => TokenTree::Ident(id.copy()),
        TokenTree::Punct { ch, joint, span } => TokenTree::Punct { ch: *ch, joint: *joint, span: *span },
        TokenTree::Literal { text, span } => TokenTree::Literal { text: text.clone(), span: *span },
        TokenTree::Group { delimiter, stream, span } => {
            proof {
                lemma_group_stream(*t);
            }
            let out = copy_stream_of(t, stream);
            make_group(*delimiter, out, *span)
        },
    }
}

fn copy_stream_of(t: &TokenTree, stream: &Vec<TokenTree>) -> (r: Vec<TokenTree>)
    requires
        t is Group,
        t->stream == *stream,
    ensures
        view_stream(r@) == view_stream(stream@),
    decreases t@, 0nat,
{
    let mut out: Vec<TokenTree> = Vec::new();
    let mut i: usize = 0;
    proof {
        lemma_group_stream(*t);
    }
    while i < stream.len()
        invariant
            t is Group,
            t->stream == *stream,
            i <= stream@.len(),
            out@.len() == i,
            forall|k: int| 0 <= k < i ==> out@[k]@ == stream@[k]@,
        decreases stream@.len() - i,
    {
        proof {
            lemma_group_stream(*t);
            assert(stream[i as int]@ == t@->stream[i as int]);
        }
        let c = copy_tree(&stream[i]);
        out.push(c);
        i = i + 1;
    }
    assert(view_stream(out@) =~= view_stream(stream@));
    out
}

/// A deep copy of a token stream.
pub fn copy_stream(s: &Vec<TokenTree>) -> (r: Vec<TokenTree>)
    ensures
        view_stream(r@) == view_stream(s@),
{
    let mut out: Vec<TokenTree> = Vec::new();
    let mut i: usize = 0;
    while i < s.len()
        invariant
            i <= s@.len(),
            out@.len() == i,
            forall|k: int| 0 <= k < i ==> out@[k]@ == s@[k]@,
        decreases s@.len() - i,
    {
        let c = copy_tree(&s[i]);
        out.push(c);
        i = i + 1;
    }
    assert(view_stream(out@) =~= view_stream(s@));
    out
}

} // verus!
