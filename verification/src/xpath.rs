//! Field expressions: XPath over a page of HTML, as the `sxd_html` and
//! `sxd_xpath` crates parse and evaluate it.

use crate::config::{chain_well_formed, apply_chain, rule_views, Rule, RuleView, StringFlow};
use crate::error::ConfigError;
use crate::text::{chars_of, matches_at, occurs_at, text_views};
use vstd::prelude::*;

verus! {

/// What a field expression yields on a page: the texts of the nodes it
/// selects, in document order; or one text; or a truth value.
#[derive(Debug, Clone)]
pub enum XPathValue {
    Nodes(Vec<String>),
    Text(String),
    Flag(bool),
}

/// An `XPathValue` as plain values.
pub enum XPathValueView {
    Nodes(Seq<Seq<char>>),
    Text(Seq<char>),
    Flag(bool),
}

impl View for XPathValue {
    type V = XPathValueView;

    open spec fn view(&self) -> XPathValueView {
        match self {
            XPathValue::Nodes(texts) => XPathValueView::Nodes(text_views(texts@)),
            XPathValue::Text(text) => XPathValueView::Text(text@),
            XPathValue::Flag(flag) => XPathValueView::Flag(*flag),
        }
    }
}

impl XPathValueView {
    /// The value as one text: the text of the first node, or nothing where
    /// no node was selected; the text itself; `true` or `false`.
    pub open spec fn string(self) -> Seq<char> {
        match self {
            XPathValueView::Nodes(texts) => if texts.len() > 0 {
                texts[0]
            } else {
                Seq::empty()
            },
            XPathValueView::Text(text) => text,
            XPathValueView::Flag(flag) => if flag {
                "true"@
            } else {
                "false"@
            },
        }
    }

    /// The value as a list of texts: those of the nodes, and none for a value
    /// that is no set of nodes.
    pub open spec fn list(self) -> Seq<Seq<char>> {
        match self {
            XPathValueView::Nodes(texts) => texts,
            _ => Seq::empty(),
        }
    }
}

/// Whether a place in an expression lies outside its string literals, or
/// inside one that was opened by a single or by a double quote.
#[derive(Clone, Copy, Debug, PartialEq, Eq, Structural)]
pub enum Quoting {
    Outside,
    Single,
    Double,
}

/// Where the place after the text `s` of an expression lies. A literal runs
/// from a quote to the next quote of the same kind.
pub open spec fn quoting_after(s: Seq<char>) -> Quoting
    decreases s.len(),
{
    if s.len() == 0 {
        Quoting::Outside
    } else {
        match quoting_after(s.drop_last()) {
            Quoting::Outside => if s.last() == '\'' {
                Quoting::Single
            } else if s.last() == '"' {
                Quoting::Double
            } else {
                Quoting::Outside
            },
            Quoting::Single => if s.last() == '\'' {
                Quoting::Outside
            } else {
                Quoting::Single
            },
            Quoting::Double => if s.last() == '"' {
                Quoting::Outside
            } else {
                Quoting::Double
            },
        }
    }
}

/// The character at `i` is a colon that stands alone, outside every string
/// literal: the colon between a prefix and a name.
pub open spec fn lone_colon_at(s: Seq<char>, i: int) -> bool {
    &&& 0 <= i < s.len()
    &&& s[i] == ':'
    &&& quoting_after(s.take(i)) == Quoting::Outside
    &&& !(i > 0 && s[i - 1] == ':')
    &&& !(i + 1 < s.len() && s[i + 1] == ':')
}

/// The expression names something by a prefix.
pub open spec fn names_a_prefix(s: Seq<char>) -> bool {
    exists|i: int| lone_colon_at(s, i)
}

/// Whether the expression names something by a prefix.
pub fn has_prefixed_name(expr: &Vec<char>) -> (r: bool)
    ensures
        r == names_a_prefix(expr@),
{
    let mut quoting: Quoting = Quoting::Outside;
    let mut i: usize = 0;
    assert(expr@.take(0) =~= Seq::<char>::empty());
    while i < expr.len()
        invariant
            i <= expr.len(),
            quoting == quoting_after(expr@.take(i as int)),
            forall|k: int| 0 <= k < i ==> !lone_colon_at(expr@, k),
        decreases expr.len() - i,
    {
        let c: char = expr[i];
        assert(expr@.take(i + 1).drop_last() =~= expr@.take(i as int));
        match quoting {
            Quoting::Outside => {
                if c == ':' && !(i > 0 && expr[i - 1] == ':') && !(i + 1 < expr.len() && expr[i
                    + 1] == ':') {
                    assert(lone_colon_at(expr@, i as int));
                    return true;
                }
                if c == '\'' {
                    quoting = Quoting::Single;
                } else if c == '"' {
                    quoting = Quoting::Double;
                }
            },
            Quoting::Single => {
                if c == '\'' {
                    quoting = Quoting::Outside;
                }
            },
            Quoting::Double => {
                if c == '"' {
                    quoting = Quoting::Outside;
                }
            },
        }
        i += 1;
    }
    false
}

/// Whether `c` is whitespace in an expression: a space, a tab or a line end.
pub open spec fn is_expression_space(c: char) -> bool {
    c == ' ' || c == '\t' || c == '\n' || c == '\r'
}

/// After whitespace, if any, the text `mark` stands in `s` from `from` on.
pub open spec fn followed_by(s: Seq<char>, from: int, mark: Seq<char>) -> bool
    decreases s.len() - from,
{
    if from < 0 || from >= s.len() {
        false
    } else if occurs_at(s, mark, from) {
        true
    } else if is_expression_space(s[from]) {
        followed_by(s, from + 1, mark)
    } else {
        false
    }
}

/// At `i`, outside every string literal, the expression holds `word`, and
/// after it, with no more than whitespace between, `mark`.
pub open spec fn uses_at(s: Seq<char>, word: Seq<char>, mark: Seq<char>, i: int) -> bool {
    &&& occurs_at(s, word, i)
    &&& quoting_after(s.take(i)) == Quoting::Outside
    &&& followed_by(s, i + word.len(), mark)
}

/// Somewhere outside its string literals the expression holds `word` and,
/// after it, `mark`.
pub open spec fn uses(s: Seq<char>, word: Seq<char>, mark: Seq<char>) -> bool {
    exists|i: int| uses_at(s, word, mark, i)
}

/// The expression calls the function `sum`, or one whose name ends so.
pub open spec fn calls_sum(s: Seq<char>) -> bool {
    uses(s, "sum"@, "("@)
}

/// The expression walks the namespace axis.
pub open spec fn walks_namespaces(s: Seq<char>) -> bool {
    uses(s, "namespace"@, "::"@)
}

/// Whether, after whitespace, `mark` stands in `expr` from `from` on.
pub fn is_followed_by(expr: &Vec<char>, from: usize, mark: &Vec<char>) -> (r: bool)
    ensures
        r == followed_by(expr@, from as int, mark@),
{
    let mut k: usize = from;
    while k < expr.len()
        invariant
            from <= k,
            followed_by(expr@, from as int, mark@) == followed_by(expr@, k as int, mark@),
        decreases expr.len() - k,
    {
        if matches_at(expr, mark, k) {
            return true;
        }
        let c: char = expr[k];
        if !(c == ' ' || c == '\t' || c == '\n' || c == '\r') {
            return false;
        }
        k += 1;
    }
    false
}

/// Whether the expression holds `word` and, after it, `mark`, outside its
/// string literals.
pub fn uses_word(expr: &Vec<char>, word: &Vec<char>, mark: &Vec<char>) -> (r: bool)
    ensures
        r == uses(expr@, word@, mark@),
{
    let mut quoting: Quoting = Quoting::Outside;
    let mut i: usize = 0;
    assert(expr@.take(0) =~= Seq::<char>::empty());
    while i < expr.len()
        invariant
            i <= expr.len(),
            quoting == quoting_after(expr@.take(i as int)),
            forall|k: int| 0 <= k < i ==> !uses_at(expr@, word@, mark@, k),
        decreases expr.len() - i,
    {
        let c: char = expr[i];
        assert(expr@.take(i + 1).drop_last() =~= expr@.take(i as int));
        match quoting {
            Quoting::Outside => {
                if matches_at(expr, word, i) {
                    if expr.len() - i >= word.len() && is_followed_by(expr, i + word.len(), mark) {
                        assert(uses_at(expr@, word@, mark@, i as int));
                        return true;
                    }
                }
                if c == '\'' {
                    quoting = Quoting::Single;
                } else if c == '"' {
                    quoting = Quoting::Double;
                }
            },
            Quoting::Single => {
                if c == '\'' {
                    quoting = Quoting::Outside;
                }
            },
            Quoting::Double => {
                if c == '"' {
                    quoting = Quoting::Outside;
                }
            },
        }
        i += 1;
    }
    assert forall|k: int| !uses_at(expr@, word@, mark@, k) by {
        if k >= expr@.len() {
            assert(!followed_by(expr@, k + word@.len(), mark@));
        }
    }
    false
}

/// What `sxd_xpath::evaluate_xpath` yields for the expression `expr` on the
/// document that `sxd_html::parse_html` builds from `html`, with sets of
/// nodes put in document order; nothing where the expression cannot be
/// compiled or evaluated.
pub uninterp spec fn xpath_outcome(html: Seq<char>, expr: Seq<char>) -> Option<XPathValueView>;

/// An optional value as plain values.
pub open spec fn optional_value(v: Option<XPathValue>) -> Option<XPathValueView> {
    match v {
        Some(value) => Some(value@),
        None => None,
    }
}

/// Parses `html` with `sxd_html::parse_html` and evaluates `expr` at the root
/// of the document with `sxd_xpath::evaluate_xpath`. A set of nodes is handed
/// out as the string values of its nodes, ordered by `document_order`; a
/// truth value as it is; a number or a string through `Value::string`. The
/// crate orders every node but those of the namespace axis, and walks its
/// sets of nodes in that order everywhere but in the function `sum`, which
/// adds numbers in an order that changes from run to run. The axis and the
/// function are therefore left out; what comes back then depends on the two
/// texts alone. Names with a prefix are left out too: the crate stops the
/// program on one, since no prefix is declared.
#[verifier::external_body]
fn evaluate_on_page(html: &str, expr: &str) -> (r: Option<XPathValue>)
    requires
        !walks_namespaces(expr@),
        !calls_sum(expr@),
        !names_a_prefix(expr@),
    ensures
        optional_value(r) == xpath_outcome(html@, expr@),
{
    let package = sxd_html::parse_html(html);
    let document = package.as_document();
    match sxd_xpath::evaluate_xpath(&document, expr) {
        Ok(sxd_xpath::Value::Nodeset(nodes)) => Some(
            XPathValue::Nodes(nodes.document_order().iter().map(|n| n.string_value()).collect()),
        ),
        Ok(sxd_xpath::Value::Boolean(flag)) => Some(XPathValue::Flag(flag)),
        Ok(other) => Some(XPathValue::Text(other.string())),
        Err(_) => None,
    }
}

/// What the expression `expr` yields on the page `html`: the empty text for
/// an empty expression; an error for one that walks the namespace axis,
/// whose nodes have no order, for one that calls `sum`, whose result depends
/// on the run, for one that names something by a prefix, since no prefix is
/// declared, and for one that cannot be evaluated.
pub open spec fn expression_value(html: Seq<char>, expr: Seq<char>) -> Result<
    XPathValueView,
    ConfigError,
> {
    if expr.len() == 0 {
        Ok(XPathValueView::Text(Seq::empty()))
    } else if walks_namespaces(expr) || calls_sum(expr) || names_a_prefix(expr) {
        Err(ConfigError::InvalidExpression)
    } else {
        match xpath_outcome(html, expr) {
            Some(value) => Ok(value),
            None => Err(ConfigError::InvalidExpression),
        }
    }
}

/// A result that holds a value, as plain values.
pub open spec fn value_result(r: Result<XPathValue, ConfigError>) -> Result<
    XPathValueView,
    ConfigError,
> {
    match r {
        Ok(value) => Ok(value@),
        Err(e) => Err(e),
    }
}

/// What the expression `expr` yields on the page `html`.
pub fn evaluate_xpath_node(html: &str, expr: &str) -> (r: Result<XPathValue, ConfigError>)
    ensures
        value_result(r) == expression_value(html@, expr@),
{
    if expr.is_empty() {
        return Ok(XPathValue::Text(String::new()));
    }
    let chars: Vec<char> = chars_of(expr);
    if uses_word(&chars, &chars_of("namespace"), &chars_of("::")) || uses_word(
        &chars,
        &chars_of("sum"),
        &chars_of("("),
    ) || has_prefixed_name(&chars) {
        return Err(ConfigError::InvalidExpression);
    }
    match evaluate_on_page(html, expr) {
        Some(value) => Ok(value),
        None => Err(ConfigError::InvalidExpression),
    }
}

/// An optional chain of rules as plain values.
pub open spec fn handle_view(handle: Option<Vec<Rule>>) -> Option<Seq<RuleView>> {
    match handle {
        Some(rules) => Some(rule_views(rules@)),
        None => None,
    }
}

/// The chain, where there is one, is well formed.
pub open spec fn handle_well_formed(handle: Option<Seq<RuleView>>) -> bool {
    match handle {
        Some(rules) => chain_well_formed(rules),
        None => true,
    }
}

/// What the chain makes of the text `s`; `s` itself where there is no chain.
pub open spec fn handled(handle: Option<Seq<RuleView>>, s: Seq<char>) -> Seq<char> {
    match handle {
        Some(rules) => apply_chain(rules, s),
        None => s,
    }
}

/// What the chain makes of each text of a list.
pub open spec fn handled_each(handle: Option<Seq<RuleView>>, texts: Seq<Seq<char>>) -> Seq<
    Seq<char>,
> {
    Seq::new(texts.len(), |i: int| handled(handle, texts[i]))
}

impl XPathValue {
    /// The value as one text.
    pub fn string(&self) -> (r: String)
        ensures
            r@ == self@.string(),
    {
        match self {
            XPathValue::Nodes(texts) => {
                if texts.len() > 0 {
                    texts[0].clone()
                } else {
                    String::new()
                }
            },
            XPathValue::Text(text) => text.clone(),
            XPathValue::Flag(flag) => {
                if *flag {
                    "true".to_owned()
                } else {
                    "false".to_owned()
                }
            },
        }
    }
}

/// The value as a list of texts.
pub fn value_to_vec(value: XPathValue) -> (r: Vec<String>)
    ensures
        text_views(r@) == value@.list(),
{
    match value {
        XPathValue::Nodes(texts) => texts,
        _ => {
            let none: Vec<String> = Vec::new();
            assert(text_views(none@) =~= Seq::<Seq<char>>::empty());
            none
        },
    }
}

/// The value as a list of texts, each as the chain `handle` makes it.
pub fn value_to_vec_use_handle(value: XPathValue, handle: &Option<Vec<Rule>>) -> (r: Vec<String>)
    requires
        handle_well_formed(handle_view(*handle)),
    ensures
        text_views(r@) == handled_each(handle_view(*handle), value@.list()),
{
    let texts: Vec<String> = value_to_vec(value);
    match handle {
        Some(rules) => {
            let flow = StringFlow::new(rules);
            let mut out: Vec<String> = Vec::new();
            let mut i: usize = 0;
            while i < texts.len()
                invariant
                    i <= texts.len(),
                    out.len() == i,
                    flow@ == rule_views(rules@),
                    forall|k: int|
                        0 <= k < i ==> (#[trigger] out@[k])@ == apply_chain(flow@, texts@[k]@),
                decreases texts.len() - i,
            {
                out.push(flow.process_string(texts[i].as_str()));
                i += 1;
            }
            assert(text_views(out@) =~= handled_each(handle_view(*handle), text_views(texts@)));
            out
        },
        None => {
            assert(text_views(texts@) =~= handled_each(handle_view(*handle), text_views(texts@)));
            texts
        },
    }
}

/// The value as one text, as the chain `handle` makes it.
pub fn value_to_string_use_handle(value: XPathValue, handle: &Option<Vec<Rule>>) -> (r: String)
    requires
        handle_well_formed(handle_view(*handle)),
    ensures
        r@ == handled(handle_view(*handle), value@.string()),
{
    let text: String = value.string();
    match handle {
        Some(rules) => {
            let flow = StringFlow::new(rules);
            flow.process_string(text.as_str())
        },
        None => text,
    }
}

} // verus!
