//! Configuration values and the rule engine that they drive.

use crate::error::ConfigError;
use crate::pattern::{find_match, first_match, optional_text, pattern_is_valid};
use crate::text::{
    append_to, between, between_in, chars_of, contains, copy_texts, find_in, insert, insert_in, insert_position,
    lemma_char_position_bounds, start_index, lowercase_in, lowercase_of, occurs_at, replace_all, replace_in, same_text, string_of, substring,
    substring_in, text_views, trim, trim_in,
};
use vstd::prelude::*;

verus! {

/// One test on the text that a rule is about to change.
#[derive(Debug, Clone)]
pub struct Condition {
    pub name: String,
    pub args: Vec<String>,
}

/// A `Condition` as plain values.
pub struct ConditionView {
    pub name: Seq<char>,
    pub args: Seq<Seq<char>>,
}

impl View for Condition {
    type V = ConditionView;

    open spec fn view(&self) -> ConditionView {
        ConditionView { name: self.name@, args: text_views(self.args@) }
    }
}

/// The predicates that a condition can name.
#[derive(Clone, Copy, Debug, PartialEq, Eq, Structural)]
pub enum Predicate {
    Contains,
    NotContains,
    Empty,
    NotEmpty,
    Unknown,
}

/// The predicate that `name` stands for.
pub open spec fn predicate_of(name: Seq<char>) -> Predicate {
    if name == "contains"@ {
        Predicate::Contains
    } else if name == "!contains"@ {
        Predicate::NotContains
    } else if name == "empty"@ {
        Predicate::Empty
    } else if name == "!empty"@ {
        Predicate::NotEmpty
    } else {
        Predicate::Unknown
    }
}

/// The predicate that `name` stands for.
pub fn predicate_named(name: &str) -> (p: Predicate)
    ensures
        p == predicate_of(name@),
{
    if same_text(name, "contains") {
        Predicate::Contains
    } else if same_text(name, "!contains") {
        Predicate::NotContains
    } else if same_text(name, "empty") {
        Predicate::Empty
    } else if same_text(name, "!empty") {
        Predicate::NotEmpty
    } else {
        Predicate::Unknown
    }
}

impl ConditionView {
    /// The condition has the argument that its predicate reads.
    pub open spec fn well_formed(self) -> bool {
        match predicate_of(self.name) {
            Predicate::Contains | Predicate::NotContains => self.args.len() >= 1,
            _ => true,
        }
    }

    /// The condition holds of the text `s`. One with an unknown predicate
    /// holds of no text.
    pub open spec fn holds(self, s: Seq<char>) -> bool {
        match predicate_of(self.name) {
            Predicate::Contains => contains(s, self.args[0]),
            Predicate::NotContains => !contains(s, self.args[0]),
            Predicate::Empty => s.len() == 0,
            Predicate::NotEmpty => s.len() != 0,
            Predicate::Unknown => false,
        }
    }
}

impl Condition {
    /// Tells whether the condition has the argument that its predicate reads.
    pub fn check(&self) -> (r: Result<(), ConfigError>)
        ensures
            r is Ok <==> self@.well_formed(),
            r is Err ==> r == Err::<(), ConfigError>(ConfigError::MissingConditionArgument),
    {
        match predicate_named(self.name.as_str()) {
            Predicate::Contains | Predicate::NotContains => {
                if self.args.len() >= 1 {
                    Ok(())
                } else {
                    Err(ConfigError::MissingConditionArgument)
                }
            },
            _ => Ok(()),
        }
    }

    /// Whether the condition holds of the characters `source`.
    pub fn holds_of(&self, source: &Vec<char>) -> (r: bool)
        requires
            self@.well_formed(),
        ensures
            r == self@.holds(source@),
    {
        match predicate_named(self.name.as_str()) {
            Predicate::Contains => {
                let arg: Vec<char> = chars_of(self.args[0].as_str());
                find_in(source, &arg).is_some()
            },
            Predicate::NotContains => {
                let arg: Vec<char> = chars_of(self.args[0].as_str());
                find_in(source, &arg).is_none()
            },
            Predicate::Empty => source.len() == 0,
            Predicate::NotEmpty => source.len() != 0,
            Predicate::Unknown => false,
        }
    }

    /// Whether the condition holds of the text `source`.
    pub fn is_match(&self, source: &str) -> (r: bool)
        requires
            self@.well_formed(),
        ensures
            r == self@.holds(source@),
    {
        let chars: Vec<char> = chars_of(source);
        self.holds_of(&chars)
    }

    /// A copy of the condition.
    pub fn copy(&self) -> (r: Condition)
        ensures
            r@ == self@,
    {
        Condition { name: self.name.clone(), args: copy_texts(&self.args) }
    }
}

/// The conditions of a list as plain values.
pub open spec fn condition_views(v: Seq<Condition>) -> Seq<ConditionView> {
    Seq::new(v.len(), |i: int| v[i]@)
}

/// One step of a chain: an action on the text, its arguments, and a guard
/// that must hold of the text for the step to be taken.
#[derive(Debug, Clone)]
pub struct Rule {
    pub action: String,
    pub args: Vec<String>,
    pub when: Option<Vec<Condition>>,
}

/// A `Rule` as plain values.
pub struct RuleView {
    pub action: Seq<char>,
    pub args: Seq<Seq<char>>,
    pub when: Option<Seq<ConditionView>>,
}

impl View for Rule {
    type V = RuleView;

    open spec fn view(&self) -> RuleView {
        RuleView {
            action: self.action@,
            args: text_views(self.args@),
            when: match self.when {
                Some(conditions) => Some(condition_views(conditions@)),
                None => None,
            },
        }
    }
}

/// The actions that a rule can name. A name that is none of the others is
/// `Nothing`: such a rule leaves every text as it is.
#[derive(Clone, Copy, Debug, PartialEq, Eq, Structural)]
pub enum ActionKind {
    Append,
    Replace,
    Substring,
    Insert,
    Between,
    Lowercase,
    Trim,
    Nothing,
}

/// The action that `name` stands for.
pub open spec fn action_of(name: Seq<char>) -> ActionKind {
    if name == "append"@ {
        ActionKind::Append
    } else if name == "replace"@ {
        ActionKind::Replace
    } else if name == "substring"@ {
        ActionKind::Substring
    } else if name == "insert"@ {
        ActionKind::Insert
    } else if name == "between"@ {
        ActionKind::Between
    } else if name == "lowercase"@ {
        ActionKind::Lowercase
    } else if name == "trim"@ {
        ActionKind::Trim
    } else {
        ActionKind::Nothing
    }
}

/// The action that `name` stands for.
pub fn action_named(name: &str) -> (a: ActionKind)
    ensures
        a == action_of(name@),
{
    if same_text(name, "append") {
        ActionKind::Append
    } else if same_text(name, "replace") {
        ActionKind::Replace
    } else if same_text(name, "substring") {
        ActionKind::Substring
    } else if same_text(name, "insert") {
        ActionKind::Insert
    } else if same_text(name, "between") {
        ActionKind::Between
    } else if same_text(name, "lowercase") {
        ActionKind::Lowercase
    } else if same_text(name, "trim") {
        ActionKind::Trim
    } else {
        ActionKind::Nothing
    }
}

/// How many arguments an action reads.
pub open spec fn arguments_read(kind: ActionKind) -> nat {
    match kind {
        ActionKind::Append => 1,
        ActionKind::Replace | ActionKind::Substring | ActionKind::Insert | ActionKind::Between => 2,
        ActionKind::Lowercase | ActionKind::Trim | ActionKind::Nothing => 0,
    }
}

impl RuleView {
    /// Every condition of the guard has the argument that it reads.
    pub open spec fn guard_well_formed(self) -> bool {
        match self.when {
            Some(conditions) => forall|i: int|
                0 <= i < conditions.len() ==> (#[trigger] conditions[i]).well_formed(),
            None => true,
        }
    }

    /// The rule has the arguments that its action reads, and so has each
    /// condition of its guard.
    pub open spec fn well_formed(self) -> bool {
        self.args.len() >= arguments_read(action_of(self.action)) && self.guard_well_formed()
    }

    /// What is wrong with the rule, if anything: its own arguments come
    /// before those of its guard.
    pub open spec fn fault(self) -> Option<ConfigError> {
        if self.args.len() < arguments_read(action_of(self.action)) {
            Some(ConfigError::MissingRuleArgument)
        } else if !self.guard_well_formed() {
            Some(ConfigError::MissingConditionArgument)
        } else {
            None
        }
    }

    /// The guard lets the rule work on the text `s`: there is no guard, or
    /// every condition of it holds of `s`.
    pub open spec fn guard_holds(self, s: Seq<char>) -> bool {
        match self.when {
            Some(conditions) => forall|i: int|
                0 <= i < conditions.len() ==> (#[trigger] conditions[i]).holds(s),
            None => true,
        }
    }

    /// What the action makes of the text `s`, whatever the guard says.
    pub open spec fn act(self, s: Seq<char>) -> Seq<char> {
        match action_of(self.action) {
            ActionKind::Append => s + self.args[0],
            ActionKind::Replace => replace_all(s, self.args[0], self.args[1]),
            ActionKind::Substring => substring(s, self.args[0], self.args[1]),
            ActionKind::Insert => insert(s, self.args[0], self.args[1]),
            ActionKind::Between => between(s, self.args[0], self.args[1]),
            ActionKind::Lowercase => lowercase_of(s),
            ActionKind::Trim => trim(s),
            ActionKind::Nothing => s,
        }
    }

    /// What the rule makes of the text `s`: what its action makes of it where
    /// the guard holds of `s`, and `s` itself where it does not.
    pub open spec fn apply(self, s: Seq<char>) -> Seq<char> {
        if self.guard_holds(s) {
            self.act(s)
        } else {
            s
        }
    }
}

impl Rule {
    /// Tells what is wrong with the rule, if anything.
    pub fn check(&self) -> (r: Result<(), ConfigError>)
        ensures
            r is Ok <==> self@.well_formed(),
            match self@.fault() {
                Some(e) => r == Err::<(), ConfigError>(e),
                None => r is Ok,
            },
    {
        let needed: usize = match action_named(self.action.as_str()) {
            ActionKind::Append => 1,
            ActionKind::Replace | ActionKind::Substring | ActionKind::Insert | ActionKind::Between => 2,
            ActionKind::Lowercase | ActionKind::Trim | ActionKind::Nothing => 0,
        };
        if self.args.len() < needed {
            return Err(ConfigError::MissingRuleArgument);
        }
        match &self.when {
            Some(conditions) => {
                let mut i: usize = 0;
                while i < conditions.len()
                    invariant
                        i <= conditions.len(),
                        self@.args.len() >= arguments_read(action_of(self@.action)),
                        self@.when == Some(condition_views(conditions@)),
                        forall|k: int|
                            0 <= k < i ==> (#[trigger] condition_views(conditions@)[k]).well_formed(),
                    decreases conditions.len() - i,
                {
                    if conditions[i].check().is_err() {
                        assert(!self@.when->Some_0[i as int].well_formed());
                        return Err(ConfigError::MissingConditionArgument);
                    }
                    i += 1;
                }
                Ok(())
            },
            None => Ok(()),
        }
    }

    /// Whether the guard lets the rule work on the characters `source`.
    pub fn guard_on(&self, source: &Vec<char>) -> (r: bool)
        requires
            self@.guard_well_formed(),
        ensures
            r == self@.guard_holds(source@),
    {
        match &self.when {
            Some(conditions) => {
                let mut i: usize = 0;
                while i < conditions.len()
                    invariant
                        i <= conditions.len(),
                        self@.when == Some(condition_views(conditions@)),
                        self@.guard_well_formed(),
                        forall|k: int|
                            0 <= k < i ==> (#[trigger] condition_views(conditions@)[k]).holds(
                                source@,
                            ),
                    decreases conditions.len() - i,
                {
                    assert(self@.when->Some_0[i as int].well_formed());
                    if !conditions[i].holds_of(source) {
                        assert(!self@.when->Some_0[i as int].holds(source@));
                        return false;
                    }
                    i += 1;
                }
                true
            },
            None => true,
        }
    }

    /// Whether the guard lets the rule work on the text `source`.
    pub fn is_match(&self, source: &str) -> (r: bool)
        requires
            self@.guard_well_formed(),
        ensures
            r == self@.guard_holds(source@),
    {
        let chars: Vec<char> = chars_of(source);
        self.guard_on(&chars)
    }

    /// What the rule makes of the characters `acc`.
    pub fn apply_to(&self, acc: Vec<char>) -> (r: Vec<char>)
        requires
            self@.well_formed(),
        ensures
            r@ == self@.apply(acc@),
    {
        if !self.guard_on(&acc) {
            return acc;
        }
        match action_named(self.action.as_str()) {
            ActionKind::Append => {
                let mut out: Vec<char> = acc;
                let suffix: Vec<char> = chars_of(self.args[0].as_str());
                append_to(&mut out, &suffix);
                out
            },
            ActionKind::Replace => {
                let needle: Vec<char> = chars_of(self.args[0].as_str());
                let with: Vec<char> = chars_of(self.args[1].as_str());
                replace_in(&acc, &needle, &with)
            },
            ActionKind::Substring => {
                let start: Vec<char> = chars_of(self.args[0].as_str());
                let end: Vec<char> = chars_of(self.args[1].as_str());
                substring_in(&acc, &start, &end)
            },
            ActionKind::Insert => {
                let position: Vec<char> = chars_of(self.args[0].as_str());
                let text: Vec<char> = chars_of(self.args[1].as_str());
                insert_in(&acc, &position, &text)
            },
            ActionKind::Between => {
                let left: Vec<char> = chars_of(self.args[0].as_str());
                let right: Vec<char> = chars_of(self.args[1].as_str());
                between_in(&acc, &left, &right)
            },
            ActionKind::Lowercase => lowercase_in(&acc),
            ActionKind::Trim => trim_in(&acc),
            ActionKind::Nothing => acc,
        }
    }

    /// A copy of the rule.
    pub fn copy(&self) -> (r: Rule)
        ensures
            r@ == self@,
    {
        let when: Option<Vec<Condition>> = match &self.when {
            Some(conditions) => {
                let mut out: Vec<Condition> = Vec::new();
                let mut i: usize = 0;
                while i < conditions.len()
                    invariant
                        i <= conditions.len(),
                        out.len() == i,
                        forall|k: int| 0 <= k < i ==> (#[trigger] out@[k])@ == conditions@[k]@,
                    decreases conditions.len() - i,
                {
                    out.push(conditions[i].copy());
                    i += 1;
                }
                assert(condition_views(out@) =~= condition_views(conditions@));
                Some(out)
            },
            None => None,
        };
        Rule { action: self.action.clone(), args: copy_texts(&self.args), when }
    }
}

/// The rules of a list as plain values.
pub open spec fn rule_views(v: Seq<Rule>) -> Seq<RuleView> {
    Seq::new(v.len(), |i: int| v[i]@)
}

/// Every rule of the chain is well formed.
pub open spec fn chain_well_formed(rules: Seq<RuleView>) -> bool {
    forall|i: int| 0 <= i < rules.len() ==> (#[trigger] rules[i]).well_formed()
}

/// What a chain makes of the text `s`: its rules work one after the other,
/// from the first to the last, each on what the one before it made.
pub open spec fn apply_chain(rules: Seq<RuleView>, s: Seq<char>) -> Seq<char>
    decreases rules.len(),
{
    if rules.len() == 0 {
        s
    } else {
        rules.last().apply(apply_chain(rules.drop_last(), s))
    }
}

/// A chain without rules leaves every text as it is.
pub proof fn lemma_empty_chain_is_identity(s: Seq<char>)
    ensures
        apply_chain(Seq::<RuleView>::empty(), s) == s,
{
}

/// A rule that puts a text in makes of its own result that same result, as
/// long as its position resolves to the same place there as in the text it
/// began with.
pub proof fn lemma_insert_rule_idempotent(rule: RuleView, s: Seq<char>)
    requires
        action_of(rule.action) == ActionKind::Insert,
        rule.well_formed(),
        insert_position(insert(s, rule.args[0], rule.args[1]), rule.args[0]) == insert_position(
            s,
            rule.args[0],
        ),
    ensures
        rule.apply(rule.apply(s)) == rule.apply(s),
{
    let at = insert_position(s, rule.args[0]);
    let once = insert(s, rule.args[0], rule.args[1]);
    lemma_char_position_bounds(s, start_index(s, rule.args[0]));
    if !occurs_at(s, rule.args[1], at) {
        assert(once.subrange(at, at + rule.args[1].len()) =~= rule.args[1]);
    }
}

/// A rule that puts a text in at a written position, at which a character of
/// the text begins or the text ends, makes of its own result that same
/// result.
pub proof fn lemma_insert_rule_at_written_position_idempotent(
    rule: RuleView,
    s: Seq<char>,
    k: int,
)
    requires
        action_of(rule.action) == ActionKind::Insert,
        rule.well_formed(),
        0 <= k <= s.len(),
        crate::text::parse_offset(rule.args[0]) == Some(crate::text::byte_offset(s, k)),
    ensures
        rule.apply(rule.apply(s)) == rule.apply(s),
{
    crate::strings::lemma_written_position_is_stable(s, rule.args[0], rule.args[1], k);
    lemma_insert_rule_idempotent(rule, s);
}

/// A chain of rules, ready to work on texts.
pub struct StringFlow {
    rules: Vec<Rule>,
}

impl View for StringFlow {
    type V = Seq<RuleView>;

    closed spec fn view(&self) -> Seq<RuleView> {
        rule_views(self.rules@)
    }
}

impl StringFlow {
    #[verifier::type_invariant]
    spec fn holds_well_formed_rules(self) -> bool {
        chain_well_formed(rule_views(self.rules@))
    }

    /// A chain of the rules given, which are well formed.
    pub fn new(rules: &Vec<Rule>) -> (flow: Self)
        requires
            chain_well_formed(rule_views(rules@)),
        ensures
            flow@ == rule_views(rules@),
    {
        let mut copies: Vec<Rule> = Vec::new();
        let mut i: usize = 0;
        while i < rules.len()
            invariant
                i <= rules.len(),
                copies.len() == i,
                forall|k: int| 0 <= k < i ==> (#[trigger] copies@[k])@ == rules@[k]@,
            decreases rules.len() - i,
        {
            copies.push(rules[i].copy());
            i += 1;
        }
        assert(rule_views(copies@) =~= rule_views(rules@));
        StringFlow { rules: copies }
    }

    /// A chain of the rules given, or what is wrong with the first of them
    /// that is not well formed.
    pub fn build(rules: &Vec<Rule>) -> (r: Result<Self, ConfigError>)
        ensures
            r is Ok <==> chain_well_formed(rule_views(rules@)),
            r matches Ok(flow) ==> flow@ == rule_views(rules@),
            r matches Err(e) ==> exists|i: int|
                0 <= i < rules.len() && chain_well_formed(rule_views(rules@).take(i))
                    && #[trigger] rule_views(rules@)[i].fault() == Some(e),
    {
        let mut i: usize = 0;
        while i < rules.len()
            invariant
                i <= rules.len(),
                chain_well_formed(rule_views(rules@).take(i as int)),
            decreases rules.len() - i,
        {
            match rules[i].check() {
                Ok(_) => {},
                Err(e) => {
                    assert(rule_views(rules@)[i as int].fault() == Some(e));
                    assert(!rule_views(rules@)[i as int].well_formed());
                    return Err(e);
                },
            }
            i += 1;
            assert forall|k: int| 0 <= k < i implies (#[trigger] rule_views(rules@).take(
                i as int,
            )[k]).well_formed() by {
                if k < i - 1 {
                    assert(rule_views(rules@).take(i - 1)[k].well_formed());
                }
            }
        }
        assert(rule_views(rules@).take(rules@.len() as int) =~= rule_views(rules@));
        Ok(StringFlow::new(rules))
    }

    /// What the chain makes of the text `input`.
    pub fn process_string(&self, input: &str) -> (r: String)
        ensures
            r@ == apply_chain(self@, input@),
    {
        proof {
            use_type_invariant(self);
        }
        let mut acc: Vec<char> = chars_of(input);
        let mut i: usize = 0;
        assert(self@.take(0) =~= Seq::<RuleView>::empty());
        while i < self.rules.len()
            invariant
                i <= self.rules.len(),
                chain_well_formed(rule_views(self.rules@)),
                acc@ == apply_chain(self@.take(i as int), input@),
            decreases self.rules.len() - i,
        {
            assert(rule_views(self.rules@)[i as int].well_formed());
            acc = self.rules[i].apply_to(acc);
            i += 1;
            assert(self@.take(i as int).drop_last() =~= self@.take(i - 1));
        }
        assert(self@.take(self@.len() as int) =~= self@);
        string_of(&acc)
    }
}

/// A named pattern that finds an identifier in a file name, with the sources
/// to try first for what it finds.
#[derive(Debug, Default, Clone)]
pub struct NumberExtractor {
    pub name: String,
    pub regex: String,
    pub sources: Option<Vec<String>>,
}

/// A `NumberExtractor` as plain values.
pub struct NumberExtractorView {
    pub name: Seq<char>,
    pub regex: Seq<char>,
    pub sources: Option<Seq<Seq<char>>>,
}

impl View for NumberExtractor {
    type V = NumberExtractorView;

    open spec fn view(&self) -> NumberExtractorView {
        NumberExtractorView {
            name: self.name@,
            regex: self.regex@,
            sources: match self.sources {
                Some(names) => Some(text_views(names@)),
                None => None,
            },
        }
    }
}

impl NumberExtractorView {
    /// What the extractor finds in `filename`: the leftmost match of its
    /// pattern, unless that match is empty; an error when the pattern is no
    /// regular expression.
    pub open spec fn number_in(self, filename: Seq<char>) -> Result<Option<Seq<char>>, ConfigError> {
        if !pattern_is_valid(self.regex) {
            Err(ConfigError::InvalidPattern)
        } else {
            match first_match(self.regex, filename) {
                Some(found) => if found.len() > 0 {
                    Ok(Some(found))
                } else {
                    Ok(None)
                },
                None => Ok(None),
            }
        }
    }
}

impl NumberExtractor {
    /// The identifier that the extractor finds in `filename`, if any.
    pub fn get_number(&self, filename: &str) -> (r: Result<Option<String>, ConfigError>)
        ensures
            match self@.number_in(filename@) {
                Ok(found) => r is Ok && optional_text(r->Ok_0) == found,
                Err(e) => r == Err::<Option<String>, ConfigError>(e),
            },
            r matches Ok(Some(number)) ==> number@.len() > 0,
    {
        match find_match(self.regex.as_str(), filename) {
            Ok(Some(found)) => {
                if found.as_str().is_empty() {
                    Ok(None)
                } else {
                    Ok(Some(found))
                }
            },
            Ok(None) => Ok(None),
            Err(e) => Err(e),
        }
    }

    /// A copy of the extractor.
    pub fn copy(&self) -> (r: NumberExtractor)
        ensures
            r@ == self@,
    {
        let sources: Option<Vec<String>> = match &self.sources {
            Some(names) => Some(copy_texts(names)),
            None => None,
        };
        NumberExtractor { name: self.name.clone(), regex: self.regex.clone(), sources }
    }
}

/// How pages are fetched.
#[derive(Debug, Default, Clone)]
pub struct Proxy {
    pub switch: bool,
    pub proxy: String,
    pub timeout: u64,
    pub retry: u8,
    pub ca_cert_file: Option<String>,
}

/// Whether and how fields of a record are translated. `values` names the
/// fields, separated by commas.
#[derive(Debug, Default, Clone)]
pub struct Translate {
    pub switch: bool,
    pub engine: String,
    pub service_url: String,
    pub access_key: String,
    pub region: Option<String>,
    pub values: String,
}

/// Whether progress is reported in detail.
#[derive(Debug, Default, Clone)]
pub struct DebugMode {
    pub switch: bool,
}

/// How folders and files are named.
#[derive(Debug, Default, Clone)]
pub struct NameRule {
    pub location_rule: String,
    pub naming_rule: String,
    pub max_title_len: usize,
    pub image_naming_with_number: bool,
}

/// Identifiers that are known to be uncensored, separated by commas.
#[derive(Debug, Default, Clone)]
pub struct Uncensored {
    pub uncensored_prefix: String,
}

/// The page that a source wants visited before it serves anything, and the
/// query pair that says where to go on from there.
#[derive(Debug, Default, Clone)]
pub struct AgeCheck {
    pub url: String,
    pub target_name: String,
    pub target_url: String,
}

/// Settings of a whole run.
#[derive(Debug, Default, Clone)]
pub struct Common {
    pub main_mode: usize,
    pub source_folder: String,
    pub failed_output_folder: String,
    pub success_output_folder: String,
    pub parser_folder: String,
    pub link_mode: usize,
    pub scan_hardlink: bool,
    pub failed_move: bool,
    pub auto_exit: bool,
    pub actor_gender: String,
    pub del_empty_folder: bool,
    pub ignore_failed_list: bool,
    pub download_only_missing_images: bool,
    pub sleep: u64,
}

/// Whether further images are fetched, and where they go.
#[derive(Debug, Default, Clone)]
pub struct ExtraFanart {
    pub switch: bool,
    pub extra_fanart_folder: String,
}

/// The file extensions of media and of subtitles, separated by commas.
#[derive(Debug, Default, Clone)]
pub struct Media {
    pub media_type: String,
    pub sub_type: String,
}

/// A chain that reshapes an identifier before it goes into an address. It
/// applies to the identifiers that contain `name`, whatever their case, and
/// to every identifier where `name` is `*`.
#[derive(Debug, Clone)]
pub struct NumberHandle {
    pub name: String,
    pub rule: Vec<Rule>,
}

/// How a source is asked for its own identifier of a film: the address of
/// its search page, the expressions that select the identifiers and the
/// source's own ones on that page, and the chains that reshape them.
#[derive(Debug, Default, Clone)]
pub struct SiteSearch {
    pub url: String,
    pub site_number_pre_handle: Option<Vec<Rule>>,
    pub expr_number: String,
    pub expr_id: String,
    pub site_number_post_handle: Option<Vec<Rule>>,
    pub site_id_post_handle: Option<Vec<Rule>>,
}

/// One source: where its pages are, the expression that selects each field
/// on a page, and the chain that reshapes what was selected.
#[derive(Debug, Default, Clone)]
pub struct Parser {
    pub name: String,
    pub site_search: Option<SiteSearch>,
    pub number_pre_handle: Vec<NumberHandle>,
    pub source_age_check: Option<AgeCheck>,
    pub source_detail_url: Vec<String>,
    pub source_max_userrating: Option<String>,
    pub source_allow_use_site_number: Option<bool>,
    pub expr_number: String,
    pub expr_title: String,
    pub expr_actor_name: String,
    pub expr_actor_photo: String,
    pub expr_studio: String,
    pub expr_runtime: String,
    pub expr_release: String,
    pub expr_outline: String,
    pub expr_director: String,
    pub expr_tags: String,
    pub expr_label: String,
    pub expr_series: String,
    pub expr_cover: String,
    pub expr_small_cover: String,
    pub expr_extra_fanart: String,
    pub expr_trailer: String,
    pub expr_uncensored: String,
    pub expr_userrating: String,
    pub expr_uservotes: String,
    pub replace_number: Option<Vec<Rule>>,
    pub replace_title: Option<Vec<Rule>>,
    pub replace_outline: Option<Vec<Rule>>,
    pub replace_studio: Option<Vec<Rule>>,
    pub replace_director: Option<Vec<Rule>>,
    pub replace_cover: Option<Vec<Rule>>,
    pub replace_small_cover: Option<Vec<Rule>>,
    pub replace_extra_fanart: Option<Vec<Rule>>,
    pub replace_actor_name: Option<Vec<Rule>>,
    pub replace_actor_photo: Option<Vec<Rule>>,
    pub replace_runtime: Option<Vec<Rule>>,
    pub replace_tags: Option<Vec<Rule>>,
    pub replace_label: Option<Vec<Rule>>,
    pub replace_series: Option<Vec<Rule>>,
    pub replace_release: Option<Vec<Rule>>,
    pub replace_userrating: Option<Vec<Rule>>,
    pub replace_uservotes: Option<Vec<Rule>>,
}

/// The sources of a configuration, each under the name it is known by. A
/// name stands for the first source that is listed under it.
#[derive(Debug, Default, Clone)]
pub struct SourcesHolder {
    pub sources: Vec<(String, Parser)>,
}

} // verus!
