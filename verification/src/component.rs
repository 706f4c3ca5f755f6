//! A whole component: its source with carriage returns taken out, and the tree
//! read from it.
use vstd::prelude::*;

use crate::ast::{Css, Fragment, FragmentType, ParseErrorKind, Root, RootType, Script};
use crate::diagnostics::CompileError;
use crate::parse::{fail, parse_fragment, parse_script, parse_style, ParseState, Stop};
use crate::scan::tag_name_end;
use crate::text::str_chars;

verus! {

/// Which characters the reader keeps: all but carriage returns.
pub open spec fn kept_char() -> spec_fn(char) -> bool {
    |c: char| c != '\r'
}

/// The characters of `src` without its carriage returns, in order.
pub fn without_carriage_returns(src: &[char]) -> (out: Vec<char>)
    ensures
        out@ == src@.filter(kept_char()),
{
    let mut out: Vec<char> = Vec::new();
    let mut i: usize = 0;
    while i < src.len()
        invariant
            i <= src@.len(),
            out@ == src@.take(i as int).filter(kept_char()),
        decreases src.len() - i,
    {
        proof {
            reveal(Seq::filter);
        }
        assert(src@.take(i as int + 1).drop_last() =~= src@.take(i as int));
        assert(src@.take(i as int + 1).last() == src@[i as int]);
        if src[i] != '\r' {
            out.push(src[i]);
        }
        i += 1;
    }
    assert(src@.take(src@.len() as int) =~= src@);
    out
}

/// A reader state with nothing read yet.
pub fn new_parse_state() -> (st: ParseState)
    ensures
        st.errors@.len() == 0,
        !st.halted,
        st.scripts@.len() == 0,
        st.styles@.len() == 0,
        st.options is None,
        st.open@.len() == 0,
        st.first_instance is None,
        st.first_module is None,
        st.first_style is None,
{
    ParseState {
        errors: Vec::new(),
        halted: false,
        scripts: Vec::new(),
        styles: Vec::new(),
        options: None,
        open: Vec::new(),
        first_instance: None,
        first_module: None,
        first_style: None,
    }
}

/// The script whose `<` is at `pos`, read again on its own.
fn script_at(src: &[char], pos: Option<usize>) -> (r: Option<Script>)
    requires
        src@.len() < usize::MAX,
    ensures
        pos is None ==> r is None,
{
    match pos {
        Some(p) => {
            if p < src.len() {
                let ne = tag_name_end(src, p + 1);
                if ne > p {
                    let mut scratch = new_parse_state();
                    let (script, _) = parse_script(src, p, ne, &mut scratch);
                    script
                } else {
                    None
                }
            } else {
                None
            }
        },
        None => None,
    }
}

/// The style sheet whose `<` is at `pos`, read again on its own.
fn style_at(src: &[char], pos: Option<usize>) -> (r: Option<Css>)
    requires
        src@.len() < usize::MAX,
    ensures
        pos is None ==> r is None,
{
    match pos {
        Some(p) => {
            if p < src.len() {
                let ne = tag_name_end(src, p + 1);
                if ne > p {
                    let mut scratch = new_parse_state();
                    let (style, _) = parse_style(src, p, ne, &mut scratch);
                    style
                } else {
                    None
                }
            } else {
                None
            }
        },
        None => None,
    }
}

/// Reads the tree of a component from its characters. Errors of syntax do
/// not stop it: they are recorded in the tree, the first one ending the reading.
pub fn parse_root(src: &[char]) -> (root: Root)
    requires
        src@.len() < usize::MAX,
    ensures
        root.start == 0,
        root.end == src@.len(),
        root.root_type == RootType::Root,
        root.fragment.fragment_type == FragmentType::Fragment,
        root.js@.len() == 0,
        root.comments is None,
        root.scripts@.len() == 0 ==> root.instance is None && root.module is None,
        root.styles@.len() == 0 ==> root.css is None,
{
    let mut st = new_parse_state();
    let (nodes, _end, stop) = parse_fragment(src, 0, &mut st, true);
    match stop {
        Stop::Eof => {},
        Stop::CloseTag { start, name, after } => {
            fail(&mut st, ParseErrorKind::ElementInvalidClosingTag { name }, start, after);
        },
        Stop::Continuation { start } => {
            fail(&mut st, ParseErrorKind::BlockInvalidContinuationPlacement, start + 1, start + 1);
        },
        Stop::BlockClose { start } => {
            fail(&mut st, ParseErrorKind::BlockUnexpectedClose, start, start + 1);
        },
    }
    let instance = if st.scripts.len() == 0 { None } else { script_at(src, st.first_instance) };
    let module = if st.scripts.len() == 0 { None } else { script_at(src, st.first_module) };
    let css = if st.styles.len() == 0 { None } else { style_at(src, st.first_style) };
    Root {
        css,
        styles: st.styles,
        js: Vec::new(),
        scripts: st.scripts,
        start: 0,
        end: src.len(),
        root_type: RootType::Root,
        fragment: Fragment { fragment_type: FragmentType::Fragment, nodes },
        options: st.options,
        module,
        instance,
        comments: None,
        errors: st.errors,
    }
}

/// A component ready for compiling: the source it was read from and its tree.
#[derive(Debug)]
pub struct ParsedComponent {
    pub source: Vec<char>,
    pub root: Root,
}

impl ParsedComponent {
    /// The source the tree was read from.
    pub fn source(&self) -> (r: &[char])
        ensures
            r@ == self.source@,
    {
        self.source.as_slice()
    }

    /// The tree of the component.
    pub fn root(&self) -> (r: &Root)
        ensures
            *r == self.root,
    {
        &self.root
    }

    /// The source and the tree, taken apart.
    pub fn into_parts(self) -> (r: (Vec<char>, Root))
        ensures
            r.0@ == self.source@,
            r.1 == self.root,
    {
        (self.source, self.root)
    }
}

/// Taking carriage returns out of a source that has none left changes
/// nothing: normalising a component's source twice gives what normalising it
/// once gives, so reading the normalised source again reads the same text.
pub proof fn lemma_normalizing_is_stable(s: Seq<char>)
    ensures
        s.filter(kept_char()).filter(kept_char()) == s.filter(kept_char()),
    decreases s.len(),
{
    reveal(Seq::filter);
    if s.len() > 0 {
        lemma_normalizing_is_stable(s.drop_last());
        let f = s.drop_last().filter(kept_char());
        if kept_char()(s.last()) {
            f.lemma_filter_push(s.last(), kept_char());
        }
    }
}

/// Reads a component for compiling: carriage returns are taken out of the
/// source first, and the tree is read from what is left. Syntax errors are
/// recorded in the tree rather than returned.
pub fn parse_component_for_compile(source: &str) -> (r: Result<ParsedComponent, CompileError>)
    requires
        source@.len() < usize::MAX,
    ensures
        r is Ok,
        r matches Ok(p) ==> p.source@ == source@.filter(kept_char()) && p.root.start == 0
            && p.root.end == p.source@.len(),
{
    let chars = str_chars(source);
    let normalized = without_carriage_returns(chars.as_slice());
    proof {
        source@.lemma_filter_len(kept_char());
    }
    let root = parse_root(normalized.as_slice());
    Ok(ParsedComponent { source: normalized, root })
}

} // verus!
