//! The modern component tree: template nodes, attributes, scripts and styles.
use vstd::prelude::*;

use crate::estree::EstreeNode;

verus! {

/// Line, column and character offset of a point in the source.
#[derive(Debug, Clone, Copy, PartialEq, Eq, Structural)]
pub struct Position {
    pub line: usize,
    pub column: usize,
    pub character: usize,
}

/// Where a tag or attribute name starts and ends.
#[derive(Debug, Clone, Copy, PartialEq, Eq, Structural)]
pub struct NameLocation {
    pub start: Position,
    pub end: Position,
}

#[derive(Debug, Clone, Copy, PartialEq, Eq, Structural)]
pub enum RootType {
    Root,
}

#[derive(Debug, Clone, Copy, PartialEq, Eq, Structural)]
pub enum FragmentType {
    Fragment,
}

#[derive(Debug, Clone, Copy, PartialEq, Eq, Structural)]
pub enum ScriptType {
    Script,
}

#[derive(Debug, Clone, Copy, PartialEq, Eq, Structural)]
pub enum ScriptContext {
    Default,
    Module,
}

#[derive(Debug, Clone, Copy, PartialEq, Eq, Structural)]
pub enum RootCommentType {
    Line,
    Block,
}

/// How the value of a named attribute was written.
#[derive(Debug, Clone, Copy, PartialEq, Eq, Structural)]
pub enum AttributeValueSyntax {
    Boolean,
    Quoted,
    Unquoted,
    Expression,
}

/// How the value of a directive was written.
#[derive(Debug, Clone, Copy, PartialEq, Eq, Structural)]
pub enum DirectiveValueSyntax {
    Implicit,
    Expression,
    Invalid,
}

/// What went wrong while reading an attribute.
#[derive(Debug, PartialEq, Eq)]
pub enum AttrErrorKind {
    InvalidName,
    ExpectedEquals,
    ExpectedValue,
    HtmlTag,
    Block { name: Vec<char> },
}

#[derive(Debug, PartialEq, Eq)]
pub struct AttrError {
    pub kind: AttrErrorKind,
    pub start: usize,
    pub end: usize,
}

#[derive(Debug, Clone, Copy, PartialEq, Eq, Structural)]
pub enum SnippetHeaderErrorKind {
    ExpectedRightBrace,
    ExpectedRightParen,
}

#[derive(Debug, Clone, Copy, PartialEq, Eq, Structural)]
pub struct SnippetHeaderError {
    pub kind: SnippetHeaderErrorKind,
    pub start: usize,
    pub end: usize,
}

/// A syntax problem recorded while reading the template.
#[derive(Debug, PartialEq, Eq)]
pub enum ParseErrorKind {
    BlockInvalidContinuationPlacement,
    BlockUnexpectedCharacter,
    ExpectedTokenElse,
    ExpectedTokenAwaitBranch,
    ExpectedTokenCommentClose,
    ExpectedTokenStyleClose,
    ExpectedTokenRightBrace,
    ExpectedWhitespace,
    CssExpectedIdentifier,
    UnexpectedEof,
    BlockUnclosed,
    BlockUnexpectedClose,
    UnexpectedReservedWord { word: Vec<char> },
    JsParseError { message: Vec<char> },
    ElementUnclosed { name: Vec<char> },
    ElementInvalidClosingTag { name: Vec<char> },
    ElementInvalidClosingTagAutoclosed { name: Vec<char>, reason: Vec<char> },
}

#[derive(Debug, PartialEq, Eq)]
pub struct ParseError {
    pub kind: ParseErrorKind,
    pub start: usize,
    pub end: usize,
}

#[derive(Debug, PartialEq, Eq)]
pub struct Fragment {
    pub fragment_type: FragmentType,
    pub nodes: Vec<Node>,
}

/// What a visit returns for one entry: go on, skip the entry's descendants, or stop with a value.
pub enum Search<T> {
    Continue,
    Skip,
    Found(T),
}

/// One visited position of a walk: a template node, or an `{:else if}` branch.
#[derive(Clone, Copy)]
pub enum Entry<'a> {
    Node(&'a Node),
    IfBlock(&'a IfBlock),
}

#[derive(Debug, PartialEq, Eq)]
pub struct Script {
    pub script_type: ScriptType,
    pub start: usize,
    pub end: usize,
    pub content_start: usize,
    pub content_end: usize,
    pub context: ScriptContext,
    pub content: EstreeNode,
    pub attributes: Vec<Attribute>,
}

#[derive(Debug, PartialEq, Eq)]
pub struct EachBlock {
    pub start: usize,
    pub end: usize,
    pub expression: Expression,
    pub body: Fragment,
    pub has_as_clause: bool,
    pub invalid_key_without_as: bool,
    pub context: Option<Expression>,
    pub context_error: Option<ParseError>,
    pub index: Option<Vec<char>>,
    pub key: Option<Expression>,
    pub fallback: Option<Fragment>,
}

#[derive(Debug, PartialEq, Eq)]
pub struct KeyBlock {
    pub start: usize,
    pub end: usize,
    pub expression: Expression,
    pub fragment: Fragment,
}

#[derive(Debug, PartialEq, Eq)]
pub struct AwaitBlock {
    pub start: usize,
    pub end: usize,
    pub expression: Expression,
    pub value: Option<Expression>,
    pub error: Option<Expression>,
    pub pending: Option<Fragment>,
    pub then_branch: Option<Fragment>,
    pub catch: Option<Fragment>,
}

#[derive(Debug, PartialEq, Eq)]
pub struct SnippetBlock {
    pub start: usize,
    pub end: usize,
    pub expression: Expression,
    pub type_params: Option<Vec<char>>,
    pub parameters: Vec<Expression>,
    pub body: Fragment,
    pub header_error: Option<SnippetHeaderError>,
}

#[derive(Debug, PartialEq, Eq)]
pub struct RenderTag {
    pub start: usize,
    pub end: usize,
    pub expression: Expression,
}

#[derive(Debug, PartialEq, Eq)]
pub struct HtmlTag {
    pub start: usize,
    pub end: usize,
    pub expression: Expression,
}

#[derive(Debug, PartialEq, Eq)]
pub struct ConstTag {
    pub start: usize,
    pub end: usize,
    pub declaration: Expression,
}

#[derive(Debug, PartialEq, Eq)]
pub struct DebugTag {
    pub start: usize,
    pub end: usize,
    pub arguments: Vec<Expression>,
    pub identifiers: Vec<Identifier>,
}

#[derive(Debug, PartialEq, Eq)]
pub struct ExpressionTag {
    pub tag_type: ExpressionTagType,
    pub start: usize,
    pub end: usize,
    pub expression: Expression,
}

#[derive(Debug, Clone, Copy, PartialEq, Eq, Structural)]
pub enum ExpressionTagType {
    ExpressionTag,
}

#[derive(Debug, PartialEq, Eq)]
pub struct Comment {
    pub start: usize,
    pub end: usize,
    pub data: Vec<char>,
}

#[derive(Debug, PartialEq, Eq)]
pub struct RegularElement {
    pub start: usize,
    pub end: usize,
    pub name: Vec<char>,
    pub name_loc: NameLocation,
    pub self_closing: bool,
    pub has_end_tag: bool,
    pub attributes: Vec<Attribute>,
    pub fragment: Fragment,
}

#[derive(Debug, PartialEq, Eq)]
pub struct Component {
    pub start: usize,
    pub end: usize,
    pub name: Vec<char>,
    pub name_loc: NameLocation,
    pub attributes: Vec<Attribute>,
    pub fragment: Fragment,
}

#[derive(Debug, PartialEq, Eq)]
pub struct SlotElement {
    pub start: usize,
    pub end: usize,
    pub name: Vec<char>,
    pub name_loc: NameLocation,
    pub attributes: Vec<Attribute>,
    pub fragment: Fragment,
}

#[derive(Debug, PartialEq, Eq)]
pub struct SvelteHead {
    pub start: usize,
    pub end: usize,
    pub name: Vec<char>,
    pub name_loc: NameLocation,
    pub attributes: Vec<Attribute>,
    pub fragment: Fragment,
}

#[derive(Debug, PartialEq, Eq)]
pub struct SvelteBody {
    pub start: usize,
    pub end: usize,
    pub name: Vec<char>,
    pub name_loc: NameLocation,
    pub attributes: Vec<Attribute>,
    pub fragment: Fragment,
}

#[derive(Debug, PartialEq, Eq)]
pub struct SvelteWindow {
    pub start: usize,
    pub end: usize,
    pub name: Vec<char>,
    pub name_loc: NameLocation,
    pub attributes: Vec<Attribute>,
    pub fragment: Fragment,
}

#[derive(Debug, PartialEq, Eq)]
pub struct SvelteDocument {
    pub start: usize,
    pub end: usize,
    pub name: Vec<char>,
    pub name_loc: NameLocation,
    pub attributes: Vec<Attribute>,
    pub fragment: Fragment,
}

#[derive(Debug, PartialEq, Eq)]
pub struct SvelteComponent {
    pub start: usize,
    pub end: usize,
    pub name: Vec<char>,
    pub name_loc: NameLocation,
    pub attributes: Vec<Attribute>,
    pub fragment: Fragment,
    pub expression: Option<Expression>,
}

#[derive(Debug, PartialEq, Eq)]
pub struct SvelteElement {
    pub start: usize,
    pub end: usize,
    pub name: Vec<char>,
    pub name_loc: NameLocation,
    pub attributes: Vec<Attribute>,
    pub fragment: Fragment,
    pub expression: Option<Expression>,
}

#[derive(Debug, PartialEq, Eq)]
pub struct SvelteSelf {
    pub start: usize,
    pub end: usize,
    pub name: Vec<char>,
    pub name_loc: NameLocation,
    pub attributes: Vec<Attribute>,
    pub fragment: Fragment,
}

#[derive(Debug, PartialEq, Eq)]
pub struct SvelteFragment {
    pub start: usize,
    pub end: usize,
    pub name: Vec<char>,
    pub name_loc: NameLocation,
    pub attributes: Vec<Attribute>,
    pub fragment: Fragment,
}

#[derive(Debug, PartialEq, Eq)]
pub struct SvelteBoundary {
    pub start: usize,
    pub end: usize,
    pub name: Vec<char>,
    pub name_loc: NameLocation,
    pub attributes: Vec<Attribute>,
    pub fragment: Fragment,
}

#[derive(Debug, PartialEq, Eq)]
pub struct TitleElement {
    pub start: usize,
    pub end: usize,
    pub name: Vec<char>,
    pub name_loc: NameLocation,
    pub attributes: Vec<Attribute>,
    pub fragment: Fragment,
}

#[derive(Debug, PartialEq, Eq)]
pub enum Attribute {
    Attribute(NamedAttribute),
    SpreadAttribute(SpreadAttribute),
    BindDirective(DirectiveAttribute),
    OnDirective(DirectiveAttribute),
    ClassDirective(DirectiveAttribute),
    LetDirective(DirectiveAttribute),
    StyleDirective(StyleDirective),
    TransitionDirective(TransitionDirective),
    AnimateDirective(DirectiveAttribute),
    UseDirective(DirectiveAttribute),
    AttachTag(AttachTag),
}

#[derive(Debug, PartialEq, Eq)]
pub struct SpreadAttribute {
    pub start: usize,
    pub end: usize,
    pub expression: Expression,
}

#[derive(Debug, PartialEq, Eq)]
pub struct NamedAttribute {
    pub start: usize,
    pub end: usize,
    pub name: Vec<char>,
    pub name_loc: NameLocation,
    pub value: AttributeValueList,
    pub value_syntax: AttributeValueSyntax,
    pub error: Option<AttrError>,
}

#[derive(Debug, PartialEq, Eq)]
pub enum AttributeValueList {
    Boolean(bool),
    Values(Vec<AttributeValue>),
    ExpressionTag(ExpressionTag),
}

#[derive(Debug, PartialEq, Eq)]
pub enum AttributeValue {
    Text(Text),
    ExpressionTag(ExpressionTag),
}

#[derive(Debug, PartialEq, Eq)]
pub struct DirectiveAttribute {
    pub start: usize,
    pub end: usize,
    pub name: Vec<char>,
    pub name_loc: NameLocation,
    pub expression: Expression,
    pub modifiers: Vec<Vec<char>>,
    pub value_syntax: DirectiveValueSyntax,
    pub value_start: usize,
}

#[derive(Debug, PartialEq, Eq)]
pub struct StyleDirective {
    pub start: usize,
    pub end: usize,
    pub name: Vec<char>,
    pub name_loc: NameLocation,
    pub modifiers: Vec<Vec<char>>,
    pub value: AttributeValueList,
    pub value_syntax: AttributeValueSyntax,
}

#[derive(Debug, PartialEq, Eq)]
pub struct TransitionDirective {
    pub start: usize,
    pub end: usize,
    pub name: Vec<char>,
    pub name_loc: NameLocation,
    pub expression: Expression,
    pub modifiers: Vec<Vec<char>>,
    pub intro: bool,
    pub outro: bool,
    pub value_syntax: DirectiveValueSyntax,
    pub value_start: usize,
}

#[derive(Debug, PartialEq, Eq)]
pub struct AttachTag {
    pub start: usize,
    pub end: usize,
    pub expression: Expression,
}

#[derive(Debug, PartialEq, Eq)]
pub struct IfBlock {
    pub elseif: bool,
    pub start: usize,
    pub end: usize,
    pub test: Expression,
    pub consequent: Fragment,
    pub alternate: Option<Box<Alternate>>,
}

#[derive(Debug, PartialEq, Eq)]
pub enum Alternate {
    Fragment(Fragment),
    IfBlock(IfBlock),
}

/// How an expression was written around its tree: the number of wrapping parentheses.
#[derive(Debug, Clone, Copy, Default, PartialEq, Eq, Structural)]
pub struct ExpressionSyntax {
    pub parens: u16,
}

/// A JavaScript expression: its ESTree form and how it was written.
#[derive(Debug, PartialEq, Eq)]
pub struct Expression(pub EstreeNode, pub ExpressionSyntax);

#[derive(Debug, PartialEq, Eq)]
pub struct Identifier {
    pub start: usize,
    pub end: usize,
    pub name: Vec<char>,
}

/// A literal value written in an expression, with its source text.
#[derive(Debug, PartialEq, Eq)]
pub struct Literal {
    pub start: usize,
    pub end: usize,
    pub value: crate::estree::EstreeValue,
    pub raw: Vec<char>,
}

/// `left operator right`.
#[derive(Debug, PartialEq, Eq)]
pub struct BinaryExpression {
    pub start: usize,
    pub end: usize,
    pub left: Box<Expression>,
    pub operator: Vec<char>,
    pub right: Box<Expression>,
}

/// A call: its callee, its arguments, and whether it is an optional call (`f?.()`).
#[derive(Debug, PartialEq, Eq)]
pub struct CallExpression {
    pub start: usize,
    pub end: usize,
    pub callee: Box<Expression>,
    pub arguments: Box<[Expression]>,
    pub optional: bool,
}

#[derive(Debug, PartialEq, Eq)]
pub struct Text {
    pub start: usize,
    pub end: usize,
    pub raw: Vec<char>,
    pub data: Vec<char>,
}

#[derive(Debug, PartialEq, Eq)]
pub struct Css {
    pub css_type: CssType,
    pub start: usize,
    pub end: usize,
    pub attributes: Vec<Attribute>,
    pub children: Vec<CssNode>,
    pub content: CssContent,
}

#[derive(Debug, Clone, Copy, PartialEq, Eq, Structural)]
pub enum CssType {
    StyleSheet,
}

#[derive(Debug, PartialEq, Eq)]
pub struct CssContent {
    pub start: usize,
    pub end: usize,
    pub styles: Vec<char>,
    pub comment: Option<Vec<char>>,
}

#[derive(Debug, PartialEq, Eq)]
pub enum CssNode {
    Rule(CssRule),
    Atrule(CssAtrule),
}

#[derive(Debug, PartialEq, Eq)]
pub struct CssRule {
    pub prelude: CssSelectorList,
    pub block: CssBlock,
    pub start: usize,
    pub end: usize,
}

#[derive(Debug, PartialEq, Eq)]
pub struct CssAtrule {
    pub start: usize,
    pub end: usize,
    pub name: Vec<char>,
    pub prelude: Vec<char>,
    pub block: Option<CssBlock>,
}

#[derive(Debug, PartialEq, Eq)]
pub struct CssBlock {
    pub block_type: CssBlockType,
    pub start: usize,
    pub end: usize,
    pub children: Vec<CssBlockChild>,
}

#[derive(Debug, Clone, Copy, PartialEq, Eq, Structural)]
pub enum CssBlockType {
    Block,
}

#[derive(Debug, PartialEq, Eq)]
pub enum CssBlockChild {
    Declaration(CssDeclaration),
    Rule(CssRule),
    Atrule(CssAtrule),
}

#[derive(Debug, PartialEq, Eq)]
pub struct CssDeclaration {
    pub start: usize,
    pub end: usize,
    pub property: Vec<char>,
    pub value: Vec<char>,
}

#[derive(Debug, PartialEq, Eq)]
pub struct CssSelectorList {
    pub list_type: CssSelectorListType,
    pub start: usize,
    pub end: usize,
    pub children: Vec<CssComplexSelector>,
}

#[derive(Debug, Clone, Copy, PartialEq, Eq, Structural)]
pub enum CssSelectorListType {
    SelectorList,
}

#[derive(Debug, PartialEq, Eq)]
pub struct CssComplexSelector {
    pub selector_type: CssComplexSelectorType,
    pub start: usize,
    pub end: usize,
    pub children: Vec<CssRelativeSelector>,
}

#[derive(Debug, Clone, Copy, PartialEq, Eq, Structural)]
pub enum CssComplexSelectorType {
    ComplexSelector,
}

#[derive(Debug, PartialEq, Eq)]
pub struct CssRelativeSelector {
    pub selector_type: CssRelativeSelectorType,
    pub combinator: Option<CssCombinator>,
    pub selectors: Vec<CssSimpleSelector>,
    pub start: usize,
    pub end: usize,
}

#[derive(Debug, Clone, Copy, PartialEq, Eq, Structural)]
pub enum CssRelativeSelectorType {
    RelativeSelector,
}

#[derive(Debug, PartialEq, Eq)]
pub struct CssCombinator {
    pub combinator_type: CssCombinatorType,
    pub name: Vec<char>,
    pub start: usize,
    pub end: usize,
}

#[derive(Debug, Clone, Copy, PartialEq, Eq, Structural)]
pub enum CssCombinatorType {
    Combinator,
}

#[derive(Debug, PartialEq, Eq)]
pub enum CssSimpleSelector {
    TypeSelector(CssNameSelector),
    IdSelector(CssNameSelector),
    ClassSelector(CssNameSelector),
    PseudoElementSelector(CssNameSelector),
    PseudoClassSelector(CssPseudoClassSelector),
    AttributeSelector(CssAttributeSelector),
    Nth(CssValueSelector),
    Percentage(CssValueSelector),
    NestingSelector(CssNameSelector),
}

#[derive(Debug, PartialEq, Eq)]
pub struct CssNameSelector {
    pub name: Vec<char>,
    pub start: usize,
    pub end: usize,
}

#[derive(Debug, PartialEq, Eq)]
pub struct CssValueSelector {
    pub value: Vec<char>,
    pub start: usize,
    pub end: usize,
}

#[derive(Debug, PartialEq, Eq)]
pub struct CssPseudoClassSelector {
    pub name: Vec<char>,
    pub args: Option<CssSelectorList>,
    pub start: usize,
    pub end: usize,
}

#[derive(Debug, PartialEq, Eq)]
pub struct CssAttributeSelector {
    pub start: usize,
    pub end: usize,
    pub name: Vec<char>,
    pub matcher: Option<Vec<char>>,
    pub value: Option<Vec<char>>,
    pub flags: Option<Vec<char>>,
}

#[derive(Debug, PartialEq, Eq)]
pub struct Options {
    pub start: usize,
    pub end: usize,
    pub attributes: Vec<Attribute>,
    pub fragment: Fragment,
    pub custom_element: Option<CustomElement>,
    pub runes: Option<bool>,
}

#[derive(Debug, PartialEq, Eq)]
pub struct CustomElement {
    pub tag: Vec<char>,
}

#[derive(Debug, PartialEq, Eq)]
pub enum Node {
    Text(Text),
    IfBlock(IfBlock),
    EachBlock(EachBlock),
    KeyBlock(KeyBlock),
    AwaitBlock(AwaitBlock),
    SnippetBlock(SnippetBlock),
    RenderTag(RenderTag),
    HtmlTag(HtmlTag),
    ConstTag(ConstTag),
    DebugTag(DebugTag),
    ExpressionTag(ExpressionTag),
    Comment(Comment),
    RegularElement(RegularElement),
    Component(Component),
    SlotElement(SlotElement),
    SvelteHead(SvelteHead),
    SvelteBody(SvelteBody),
    SvelteWindow(SvelteWindow),
    SvelteDocument(SvelteDocument),
    SvelteComponent(SvelteComponent),
    SvelteElement(SvelteElement),
    SvelteSelf(SvelteSelf),
    SvelteFragment(SvelteFragment),
    SvelteBoundary(SvelteBoundary),
    TitleElement(TitleElement),
}

#[derive(Debug, PartialEq, Eq)]
pub struct RootComment {
    pub comment_type: RootCommentType,
    pub start: usize,
    pub end: usize,
    pub value: Vec<char>,
    pub loc: NameLocation,
}

#[derive(Debug, PartialEq, Eq)]
pub struct Root {
    pub css: Option<Css>,
    pub styles: Vec<Css>,
    pub js: Vec<Script>,
    pub scripts: Vec<Script>,
    pub start: usize,
    pub end: usize,
    pub root_type: RootType,
    pub fragment: Fragment,
    pub options: Option<Options>,
    pub module: Option<Script>,
    pub instance: Option<Script>,
    pub comments: Option<Vec<RootComment>>,
    pub errors: Vec<ParseError>,
}

} // verus!

verus! {

impl Fragment {
    /// A fragment with no nodes.
    pub fn empty() -> (f: Self)
        ensures
            f.fragment_type == FragmentType::Fragment,
            f.nodes@.len() == 0,
    {
        Fragment { fragment_type: FragmentType::Fragment, nodes: Vec::new() }
    }
}

impl Default for Fragment {
    /// A fragment with no nodes.
    fn default() -> (f: Self)
        ensures
            f.fragment_type == FragmentType::Fragment,
            f.nodes@.len() == 0,
    {
        Fragment::empty()
    }
}

impl<'a> Entry<'a> {
    /// The template node of this entry, unless it is an `{:else if}` branch.
    pub fn as_node(self) -> (r: Option<&'a Node>)
        ensures
            r == match self {
                Entry::Node(n) => Some(n),
                Entry::IfBlock(_) => None::<&Node>,
            },
    {
        match self {
            Entry::Node(node) => Some(node),
            Entry::IfBlock(_) => None,
        }
    }

    /// The `{#if}` block of this entry: an if-block node or an `{:else if}` branch.
    pub fn as_if_block(self) -> (r: Option<&'a IfBlock>)
        ensures
            r == match self {
                Entry::Node(Node::IfBlock(b)) => Some(b),
                Entry::IfBlock(b) => Some(b),
                Entry::Node(_) => None::<&IfBlock>,
            },
    {
        match self {
            Entry::Node(Node::IfBlock(block)) => Some(block),
            Entry::IfBlock(block) => Some(block),
            Entry::Node(_) => None,
        }
    }
}

impl Expression {
    /// The number of parentheses written around the expression.
    pub fn parens(&self) -> (n: u16)
        ensures
            n == self.1.parens,
    {
        self.1.parens
    }

    /// Whether the expression was written inside parentheses.
    pub fn is_parenthesized(&self) -> (b: bool)
        ensures
            b == (self.1.parens != 0),
    {
        self.parens() != 0
    }
}

/// The element-like parts that every element node shares.
#[derive(Clone, Copy)]
pub struct ElementRef<'a> {
    pub start: usize,
    pub end: usize,
    pub name: &'a Vec<char>,
    pub name_loc: &'a NameLocation,
    pub attributes: &'a Vec<Attribute>,
    pub fragment: &'a Fragment,
    pub expression: Option<&'a Expression>,
    pub self_closing: bool,
}

/// What every element node has: a name and where it stands, attributes,
/// children, and, for `<svelte:component>` and `<svelte:element>`, the
/// expression that picks what is rendered.
pub trait Element {
    /// The shared parts of the element.
    spec fn parts(&self) -> ElementRef<'_>;

    fn name(&self) -> (r: &Vec<char>)
        ensures
            r == self.parts().name,
    ;

    fn name_loc(&self) -> (r: &NameLocation)
        ensures
            r == self.parts().name_loc,
    ;

    fn attributes(&self) -> (r: &Vec<Attribute>)
        ensures
            r == self.parts().attributes,
    ;

    fn fragment(&self) -> (r: &Fragment)
        ensures
            r == self.parts().fragment,
    ;

    fn expression(&self) -> (r: Option<&Expression>)
        ensures
            r == self.parts().expression,
    ;

    fn self_closing(&self) -> (r: bool)
        ensures
            r == self.parts().self_closing,
    ;
}

impl Element for RegularElement {
    open spec fn parts(&self) -> ElementRef<'_> {
        ElementRef {
            start: self.start,
            end: self.end,
            name: &self.name,
            name_loc: &self.name_loc,
            attributes: &self.attributes,
            fragment: &self.fragment,
            expression: None,
            self_closing: self.self_closing,
        }
    }

    fn name(&self) -> (r: &Vec<char>) {
        &self.name
    }

    fn name_loc(&self) -> (r: &NameLocation) {
        &self.name_loc
    }

    fn attributes(&self) -> (r: &Vec<Attribute>) {
        &self.attributes
    }

    fn fragment(&self) -> (r: &Fragment) {
        &self.fragment
    }

    fn expression(&self) -> (r: Option<&Expression>) {
        None
    }

    fn self_closing(&self) -> (r: bool) {
        self.self_closing
    }
}

impl Element for Component {
    open spec fn parts(&self) -> ElementRef<'_> {
        ElementRef {
            start: self.start,
            end: self.end,
            name: &self.name,
            name_loc: &self.name_loc,
            attributes: &self.attributes,
            fragment: &self.fragment,
            expression: None,
            self_closing: false,
        }
    }

    fn name(&self) -> (r: &Vec<char>) {
        &self.name
    }

    fn name_loc(&self) -> (r: &NameLocation) {
        &self.name_loc
    }

    fn attributes(&self) -> (r: &Vec<Attribute>) {
        &self.attributes
    }

    fn fragment(&self) -> (r: &Fragment) {
        &self.fragment
    }

    fn expression(&self) -> (r: Option<&Expression>) {
        None
    }

    fn self_closing(&self) -> (r: bool) {
        false
    }
}

impl Element for SlotElement {
    open spec fn parts(&self) -> ElementRef<'_> {
        ElementRef {
            start: self.start,
            end: self.end,
            name: &self.name,
            name_loc: &self.name_loc,
            attributes: &self.attributes,
            fragment: &self.fragment,
            expression: None,
            self_closing: false,
        }
    }

    fn name(&self) -> (r: &Vec<char>) {
        &self.name
    }

    fn name_loc(&self) -> (r: &NameLocation) {
        &self.name_loc
    }

    fn attributes(&self) -> (r: &Vec<Attribute>) {
        &self.attributes
    }

    fn fragment(&self) -> (r: &Fragment) {
        &self.fragment
    }

    fn expression(&self) -> (r: Option<&Expression>) {
        None
    }

    fn self_closing(&self) -> (r: bool) {
        false
    }
}

impl Element for SvelteHead {
    open spec fn parts(&self) -> ElementRef<'_> {
        ElementRef {
            start: self.start,
            end: self.end,
            name: &self.name,
            name_loc: &self.name_loc,
            attributes: &self.attributes,
            fragment: &self.fragment,
            expression: None,
            self_closing: false,
        }
    }

    fn name(&self) -> (r: &Vec<char>) {
        &self.name
    }

    fn name_loc(&self) -> (r: &NameLocation) {
        &self.name_loc
    }

    fn attributes(&self) -> (r: &Vec<Attribute>) {
        &self.attributes
    }

    fn fragment(&self) -> (r: &Fragment) {
        &self.fragment
    }

    fn expression(&self) -> (r: Option<&Expression>) {
        None
    }

    fn self_closing(&self) -> (r: bool) {
        false
    }
}

impl Element for SvelteBody {
    open spec fn parts(&self) -> ElementRef<'_> {
        ElementRef {
            start: self.start,
            end: self.end,
            name: &self.name,
            name_loc: &self.name_loc,
            attributes: &self.attributes,
            fragment: &self.fragment,
            expression: None,
            self_closing: false,
        }
    }

    fn name(&self) -> (r: &Vec<char>) {
        &self.name
    }

    fn name_loc(&self) -> (r: &NameLocation) {
        &self.name_loc
    }

    fn attributes(&self) -> (r: &Vec<Attribute>) {
        &self.attributes
    }

    fn fragment(&self) -> (r: &Fragment) {
        &self.fragment
    }

    fn expression(&self) -> (r: Option<&Expression>) {
        None
    }

    fn self_closing(&self) -> (r: bool) {
        false
    }
}

impl Element for SvelteWindow {
    open spec fn parts(&self) -> ElementRef<'_> {
        ElementRef {
            start: self.start,
            end: self.end,
            name: &self.name,
            name_loc: &self.name_loc,
            attributes: &self.attributes,
            fragment: &self.fragment,
            expression: None,
            self_closing: false,
        }
    }

    fn name(&self) -> (r: &Vec<char>) {
        &self.name
    }

    fn name_loc(&self) -> (r: &NameLocation) {
        &self.name_loc
    }

    fn attributes(&self) -> (r: &Vec<Attribute>) {
        &self.attributes
    }

    fn fragment(&self) -> (r: &Fragment) {
        &self.fragment
    }

    fn expression(&self) -> (r: Option<&Expression>) {
        None
    }

    fn self_closing(&self) -> (r: bool) {
        false
    }
}

impl Element for SvelteDocument {
    open spec fn parts(&self) -> ElementRef<'_> {
        ElementRef {
            start: self.start,
            end: self.end,
            name: &self.name,
            name_loc: &self.name_loc,
            attributes: &self.attributes,
            fragment: &self.fragment,
            expression: None,
            self_closing: false,
        }
    }

    fn name(&self) -> (r: &Vec<char>) {
        &self.name
    }

    fn name_loc(&self) -> (r: &NameLocation) {
        &self.name_loc
    }

    fn attributes(&self) -> (r: &Vec<Attribute>) {
        &self.attributes
    }

    fn fragment(&self) -> (r: &Fragment) {
        &self.fragment
    }

    fn expression(&self) -> (r: Option<&Expression>) {
        None
    }

    fn self_closing(&self) -> (r: bool) {
        false
    }
}

impl Element for SvelteComponent {
    open spec fn parts(&self) -> ElementRef<'_> {
        ElementRef {
            start: self.start,
            end: self.end,
            name: &self.name,
            name_loc: &self.name_loc,
            attributes: &self.attributes,
            fragment: &self.fragment,
            expression: match &self.expression { Some(x) => Some(x), None => None },
            self_closing: false,
        }
    }

    fn name(&self) -> (r: &Vec<char>) {
        &self.name
    }

    fn name_loc(&self) -> (r: &NameLocation) {
        &self.name_loc
    }

    fn attributes(&self) -> (r: &Vec<Attribute>) {
        &self.attributes
    }

    fn fragment(&self) -> (r: &Fragment) {
        &self.fragment
    }

    fn expression(&self) -> (r: Option<&Expression>) {
        match &self.expression {
            Some(x) => Some(x),
            None => None,
        }
    }

    fn self_closing(&self) -> (r: bool) {
        false
    }
}

impl Element for SvelteElement {
    open spec fn parts(&self) -> ElementRef<'_> {
        ElementRef {
            start: self.start,
            end: self.end,
            name: &self.name,
            name_loc: &self.name_loc,
            attributes: &self.attributes,
            fragment: &self.fragment,
            expression: match &self.expression { Some(x) => Some(x), None => None },
            self_closing: false,
        }
    }

    fn name(&self) -> (r: &Vec<char>) {
        &self.name
    }

    fn name_loc(&self) -> (r: &NameLocation) {
        &self.name_loc
    }

    fn attributes(&self) -> (r: &Vec<Attribute>) {
        &self.attributes
    }

    fn fragment(&self) -> (r: &Fragment) {
        &self.fragment
    }

    fn expression(&self) -> (r: Option<&Expression>) {
        match &self.expression {
            Some(x) => Some(x),
            None => None,
        }
    }

    fn self_closing(&self) -> (r: bool) {
        false
    }
}

impl Element for SvelteSelf {
    open spec fn parts(&self) -> ElementRef<'_> {
        ElementRef {
            start: self.start,
            end: self.end,
            name: &self.name,
            name_loc: &self.name_loc,
            attributes: &self.attributes,
            fragment: &self.fragment,
            expression: None,
            self_closing: false,
        }
    }

    fn name(&self) -> (r: &Vec<char>) {
        &self.name
    }

    fn name_loc(&self) -> (r: &NameLocation) {
        &self.name_loc
    }

    fn attributes(&self) -> (r: &Vec<Attribute>) {
        &self.attributes
    }

    fn fragment(&self) -> (r: &Fragment) {
        &self.fragment
    }

    fn expression(&self) -> (r: Option<&Expression>) {
        None
    }

    fn self_closing(&self) -> (r: bool) {
        false
    }
}

impl Element for SvelteFragment {
    open spec fn parts(&self) -> ElementRef<'_> {
        ElementRef {
            start: self.start,
            end: self.end,
            name: &self.name,
            name_loc: &self.name_loc,
            attributes: &self.attributes,
            fragment: &self.fragment,
            expression: None,
            self_closing: false,
        }
    }

    fn name(&self) -> (r: &Vec<char>) {
        &self.name
    }

    fn name_loc(&self) -> (r: &NameLocation) {
        &self.name_loc
    }

    fn attributes(&self) -> (r: &Vec<Attribute>) {
        &self.attributes
    }

    fn fragment(&self) -> (r: &Fragment) {
        &self.fragment
    }

    fn expression(&self) -> (r: Option<&Expression>) {
        None
    }

    fn self_closing(&self) -> (r: bool) {
        false
    }
}

impl Element for SvelteBoundary {
    open spec fn parts(&self) -> ElementRef<'_> {
        ElementRef {
            start: self.start,
            end: self.end,
            name: &self.name,
            name_loc: &self.name_loc,
            attributes: &self.attributes,
            fragment: &self.fragment,
            expression: None,
            self_closing: false,
        }
    }

    fn name(&self) -> (r: &Vec<char>) {
        &self.name
    }

    fn name_loc(&self) -> (r: &NameLocation) {
        &self.name_loc
    }

    fn attributes(&self) -> (r: &Vec<Attribute>) {
        &self.attributes
    }

    fn fragment(&self) -> (r: &Fragment) {
        &self.fragment
    }

    fn expression(&self) -> (r: Option<&Expression>) {
        None
    }

    fn self_closing(&self) -> (r: bool) {
        false
    }
}

impl Element for TitleElement {
    open spec fn parts(&self) -> ElementRef<'_> {
        ElementRef {
            start: self.start,
            end: self.end,
            name: &self.name,
            name_loc: &self.name_loc,
            attributes: &self.attributes,
            fragment: &self.fragment,
            expression: None,
            self_closing: false,
        }
    }

    fn name(&self) -> (r: &Vec<char>) {
        &self.name
    }

    fn name_loc(&self) -> (r: &NameLocation) {
        &self.name_loc
    }

    fn attributes(&self) -> (r: &Vec<Attribute>) {
        &self.attributes
    }

    fn fragment(&self) -> (r: &Fragment) {
        &self.fragment
    }

    fn expression(&self) -> (r: Option<&Expression>) {
        None
    }

    fn self_closing(&self) -> (r: bool) {
        false
    }
}

/// The shared parts of an element node, or `None` for blocks, tags, text and comments.
pub open spec fn spec_element(node: &Node) -> Option<ElementRef<'_>> {
    match node {
        Node::RegularElement(e) => Some(ElementRef { start: e.start, end: e.end, name: &e.name, name_loc: &e.name_loc, attributes: &e.attributes, fragment: &e.fragment, expression: None, self_closing: e.self_closing }),
        Node::Component(e) => Some(ElementRef { start: e.start, end: e.end, name: &e.name, name_loc: &e.name_loc, attributes: &e.attributes, fragment: &e.fragment, expression: None, self_closing: false }),
        Node::SlotElement(e) => Some(ElementRef { start: e.start, end: e.end, name: &e.name, name_loc: &e.name_loc, attributes: &e.attributes, fragment: &e.fragment, expression: None, self_closing: false }),
        Node::SvelteHead(e) => Some(ElementRef { start: e.start, end: e.end, name: &e.name, name_loc: &e.name_loc, attributes: &e.attributes, fragment: &e.fragment, expression: None, self_closing: false }),
        Node::SvelteBody(e) => Some(ElementRef { start: e.start, end: e.end, name: &e.name, name_loc: &e.name_loc, attributes: &e.attributes, fragment: &e.fragment, expression: None, self_closing: false }),
        Node::SvelteWindow(e) => Some(ElementRef { start: e.start, end: e.end, name: &e.name, name_loc: &e.name_loc, attributes: &e.attributes, fragment: &e.fragment, expression: None, self_closing: false }),
        Node::SvelteDocument(e) => Some(ElementRef { start: e.start, end: e.end, name: &e.name, name_loc: &e.name_loc, attributes: &e.attributes, fragment: &e.fragment, expression: None, self_closing: false }),
        Node::SvelteComponent(e) => Some(ElementRef { start: e.start, end: e.end, name: &e.name, name_loc: &e.name_loc, attributes: &e.attributes, fragment: &e.fragment, expression: match &e.expression { Some(x) => Some(x), None => None }, self_closing: false }),
        Node::SvelteElement(e) => Some(ElementRef { start: e.start, end: e.end, name: &e.name, name_loc: &e.name_loc, attributes: &e.attributes, fragment: &e.fragment, expression: match &e.expression { Some(x) => Some(x), None => None }, self_closing: false }),
        Node::SvelteSelf(e) => Some(ElementRef { start: e.start, end: e.end, name: &e.name, name_loc: &e.name_loc, attributes: &e.attributes, fragment: &e.fragment, expression: None, self_closing: false }),
        Node::SvelteFragment(e) => Some(ElementRef { start: e.start, end: e.end, name: &e.name, name_loc: &e.name_loc, attributes: &e.attributes, fragment: &e.fragment, expression: None, self_closing: false }),
        Node::SvelteBoundary(e) => Some(ElementRef { start: e.start, end: e.end, name: &e.name, name_loc: &e.name_loc, attributes: &e.attributes, fragment: &e.fragment, expression: None, self_closing: false }),
        Node::TitleElement(e) => Some(ElementRef { start: e.start, end: e.end, name: &e.name, name_loc: &e.name_loc, attributes: &e.attributes, fragment: &e.fragment, expression: None, self_closing: false }),
        _ => None,
    }
}

impl Node {
    /// The shared parts of an element node, or `None` for blocks, tags, text and comments.
    pub fn as_element(&self) -> (r: Option<ElementRef<'_>>)
        ensures
            r == spec_element(self),
    {
        match self {
            Node::RegularElement(e) => Some(ElementRef { start: e.start, end: e.end, name: &e.name, name_loc: &e.name_loc, attributes: &e.attributes, fragment: &e.fragment, expression: None, self_closing: e.self_closing }),
            Node::Component(e) => Some(ElementRef { start: e.start, end: e.end, name: &e.name, name_loc: &e.name_loc, attributes: &e.attributes, fragment: &e.fragment, expression: None, self_closing: false }),
            Node::SlotElement(e) => Some(ElementRef { start: e.start, end: e.end, name: &e.name, name_loc: &e.name_loc, attributes: &e.attributes, fragment: &e.fragment, expression: None, self_closing: false }),
            Node::SvelteHead(e) => Some(ElementRef { start: e.start, end: e.end, name: &e.name, name_loc: &e.name_loc, attributes: &e.attributes, fragment: &e.fragment, expression: None, self_closing: false }),
            Node::SvelteBody(e) => Some(ElementRef { start: e.start, end: e.end, name: &e.name, name_loc: &e.name_loc, attributes: &e.attributes, fragment: &e.fragment, expression: None, self_closing: false }),
            Node::SvelteWindow(e) => Some(ElementRef { start: e.start, end: e.end, name: &e.name, name_loc: &e.name_loc, attributes: &e.attributes, fragment: &e.fragment, expression: None, self_closing: false }),
            Node::SvelteDocument(e) => Some(ElementRef { start: e.start, end: e.end, name: &e.name, name_loc: &e.name_loc, attributes: &e.attributes, fragment: &e.fragment, expression: None, self_closing: false }),
            Node::SvelteComponent(e) => Some(ElementRef { start: e.start, end: e.end, name: &e.name, name_loc: &e.name_loc, attributes: &e.attributes, fragment: &e.fragment, expression: match &e.expression { Some(x) => Some(x), None => None }, self_closing: false }),
            Node::SvelteElement(e) => Some(ElementRef { start: e.start, end: e.end, name: &e.name, name_loc: &e.name_loc, attributes: &e.attributes, fragment: &e.fragment, expression: match &e.expression { Some(x) => Some(x), None => None }, self_closing: false }),
            Node::SvelteSelf(e) => Some(ElementRef { start: e.start, end: e.end, name: &e.name, name_loc: &e.name_loc, attributes: &e.attributes, fragment: &e.fragment, expression: None, self_closing: false }),
            Node::SvelteFragment(e) => Some(ElementRef { start: e.start, end: e.end, name: &e.name, name_loc: &e.name_loc, attributes: &e.attributes, fragment: &e.fragment, expression: None, self_closing: false }),
            Node::SvelteBoundary(e) => Some(ElementRef { start: e.start, end: e.end, name: &e.name, name_loc: &e.name_loc, attributes: &e.attributes, fragment: &e.fragment, expression: None, self_closing: false }),
            Node::TitleElement(e) => Some(ElementRef { start: e.start, end: e.end, name: &e.name, name_loc: &e.name_loc, attributes: &e.attributes, fragment: &e.fragment, expression: None, self_closing: false }),
            _ => None,
        }
    }

    /// Where the node starts.
    pub fn start(&self) -> (s: usize)
        ensures
            s == spec_node_span(self).0,
    {
        node_span(self).0
    }

    /// Where the node ends.
    pub fn end(&self) -> (e: usize)
        ensures
            e == spec_node_span(self).1,
    {
        node_span(self).1
    }
}

/// The start and end offsets of a node.
pub open spec fn spec_node_span(node: &Node) -> (usize, usize) {
    match node {
        Node::Text(n) => (n.start, n.end),
        Node::IfBlock(n) => (n.start, n.end),
        Node::EachBlock(n) => (n.start, n.end),
        Node::KeyBlock(n) => (n.start, n.end),
        Node::AwaitBlock(n) => (n.start, n.end),
        Node::SnippetBlock(n) => (n.start, n.end),
        Node::RenderTag(n) => (n.start, n.end),
        Node::HtmlTag(n) => (n.start, n.end),
        Node::ConstTag(n) => (n.start, n.end),
        Node::DebugTag(n) => (n.start, n.end),
        Node::ExpressionTag(n) => (n.start, n.end),
        Node::Comment(n) => (n.start, n.end),
        Node::RegularElement(n) => (n.start, n.end),
        Node::Component(n) => (n.start, n.end),
        Node::SlotElement(n) => (n.start, n.end),
        Node::SvelteHead(n) => (n.start, n.end),
        Node::SvelteBody(n) => (n.start, n.end),
        Node::SvelteWindow(n) => (n.start, n.end),
        Node::SvelteDocument(n) => (n.start, n.end),
        Node::SvelteComponent(n) => (n.start, n.end),
        Node::SvelteElement(n) => (n.start, n.end),
        Node::SvelteSelf(n) => (n.start, n.end),
        Node::SvelteFragment(n) => (n.start, n.end),
        Node::SvelteBoundary(n) => (n.start, n.end),
        Node::TitleElement(n) => (n.start, n.end),
    }
}

/// The start and end offsets of a node.
pub fn node_span(node: &Node) -> (r: (usize, usize))
    ensures
        r == spec_node_span(node),
{
    match node {
        Node::Text(n) => (n.start, n.end),
        Node::IfBlock(n) => (n.start, n.end),
        Node::EachBlock(n) => (n.start, n.end),
        Node::KeyBlock(n) => (n.start, n.end),
        Node::AwaitBlock(n) => (n.start, n.end),
        Node::SnippetBlock(n) => (n.start, n.end),
        Node::RenderTag(n) => (n.start, n.end),
        Node::HtmlTag(n) => (n.start, n.end),
        Node::ConstTag(n) => (n.start, n.end),
        Node::DebugTag(n) => (n.start, n.end),
        Node::ExpressionTag(n) => (n.start, n.end),
        Node::Comment(n) => (n.start, n.end),
        Node::RegularElement(n) => (n.start, n.end),
        Node::Component(n) => (n.start, n.end),
        Node::SlotElement(n) => (n.start, n.end),
        Node::SvelteHead(n) => (n.start, n.end),
        Node::SvelteBody(n) => (n.start, n.end),
        Node::SvelteWindow(n) => (n.start, n.end),
        Node::SvelteDocument(n) => (n.start, n.end),
        Node::SvelteComponent(n) => (n.start, n.end),
        Node::SvelteElement(n) => (n.start, n.end),
        Node::SvelteSelf(n) => (n.start, n.end),
        Node::SvelteFragment(n) => (n.start, n.end),
        Node::SvelteBoundary(n) => (n.start, n.end),
        Node::TitleElement(n) => (n.start, n.end),
    }
}

} // verus!
