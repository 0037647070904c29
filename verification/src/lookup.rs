//! One source's lookup of a film, step by step.
//!
//! A lookup fetches pages: first the page that the source wants visited
//! before it serves anything, then its search page, then its pages for the
//! film, one address after the other, until one gives a valid record. The
//! fetching is left to the caller: each step either names the next address or
//! ends the lookup, and the caller hands back what the fetch brought.
//!
//! What a lookup comes to is stated for a whole web at once, a function from
//! addresses to the pages behind them. Every step keeps that outcome.

use crate::config::{apply_chain, rule_views, NumberHandle, Parser, StringFlow};
use crate::error::ConfigError;
use crate::parser::{Movie, MovieView};
use crate::request::{address_of, address_with_pair, page_address, page_address_with_pair};
use crate::text::{
    chars_of, contains, find_in, lowercase_in, lowercase_of, replace_all, replace_in, same_text,
    string_of,
};
use vstd::prelude::*;
use vstd::string::StringExecFns;

verus! {

/// Where a lookup stands: which page it is waiting for.
#[derive(Debug, Clone)]
pub enum LookupStage {
    /// The page that the source wants visited first.
    Gate,
    /// The search page.
    Resolve,
    /// The page for the film at the address with this index, asked for under
    /// this identifier.
    Detail { number: String, index: usize },
}

/// A `LookupStage` as plain values.
pub enum LookupStageView {
    Gate,
    Resolve,
    Detail { number: Seq<char>, index: int },
}

impl View for LookupStage {
    type V = LookupStageView;

    open spec fn view(&self) -> LookupStageView {
        match self {
            LookupStage::Gate => LookupStageView::Gate,
            LookupStage::Resolve => LookupStageView::Resolve,
            LookupStage::Detail { number, index } => LookupStageView::Detail {
                number: number@,
                index: *index as int,
            },
        }
    }
}

/// What a lookup does next: fetch a page and come back at a stage, or end
/// with a record or without one.
#[derive(Debug, Clone)]
pub enum LookupStep {
    Fetch { address: String, stage: LookupStage },
    Done(Option<Movie>),
}

/// A `LookupStep` as plain values.
pub enum LookupStepView {
    Fetch { address: Seq<char>, stage: LookupStageView },
    Done(Option<MovieView>),
}

impl View for LookupStep {
    type V = LookupStepView;

    open spec fn view(&self) -> LookupStepView {
        match self {
            LookupStep::Fetch { address, stage } => LookupStepView::Fetch {
                address: address@,
                stage: stage@,
            },
            LookupStep::Done(movie) => LookupStepView::Done(optional_movie(*movie)),
        }
    }
}

/// A step or an error as plain values.
pub open spec fn step_result(r: Result<LookupStep, ConfigError>) -> Result<
    LookupStepView,
    ConfigError,
> {
    match r {
        Ok(step) => Ok(step@),
        Err(e) => Err(e),
    }
}

/// An optional record as plain values.
pub open spec fn optional_movie(m: Option<Movie>) -> Option<MovieView> {
    match m {
        Some(movie) => Some(movie@),
        None => None,
    }
}

/// An optional page as plain values.
pub open spec fn optional_page(page: Option<&str>) -> Option<Seq<char>> {
    match page {
        Some(html) => Some(html@),
        None => None,
    }
}

/// Whether a chain for identifiers applies to `number`: its name is `*`, or
/// it occurs in the identifier, both taken in lower case.
pub open spec fn handle_applies(handle: NumberHandle, number: Seq<char>) -> bool {
    handle.name@ == "*"@ || contains(lowercase_of(number), lowercase_of(handle.name@))
}

/// The address that a template stands for: the identifier goes where the
/// template says `{id}`, and at its end where it says so nowhere.
pub open spec fn filled_in(template: Seq<char>, number: Seq<char>) -> Seq<char> {
    if contains(template, "{id}"@) {
        replace_all(template, "{id}"@, number)
    } else {
        template + number
    }
}

/// The address that the template `template` stands for.
pub fn fill_in(template: &str, number: &str) -> (r: String)
    ensures
        r@ == filled_in(template@, number@),
{
    let text: Vec<char> = chars_of(template);
    let place: Vec<char> = chars_of("{id}");
    if find_in(&text, &place).is_some() {
        string_of(&replace_in(&text, &place, &chars_of(number)))
    } else {
        template.to_owned().concat(number)
    }
}

impl Parser {
    /// The index of the last chain before `upto` that applies to `number`.
    pub open spec fn chosen_handle(&self, number: Seq<char>, upto: int) -> Option<int>
        decreases upto,
    {
        if upto <= 0 || upto > self.number_pre_handle@.len() {
            None
        } else if handle_applies(self.number_pre_handle@[upto - 1], number) {
            Some(upto - 1)
        } else {
            self.chosen_handle(number, upto - 1)
        }
    }

    /// The identifier as it goes into an address: as the last chain that
    /// applies to it makes it, or as it is where none applies.
    pub open spec fn search_number(&self, number: Seq<char>) -> Seq<char> {
        match self.chosen_handle(number, self.number_pre_handle@.len() as int) {
            Some(i) => apply_chain(rule_views(self.number_pre_handle@[i].rule@), number),
            None => number,
        }
    }

    /// The address with index `index` for the identifier `number`, before it
    /// is checked.
    pub open spec fn detail_text(&self, number: Seq<char>, index: int) -> Seq<char> {
        filled_in(self.source_detail_url@[index]@, self.search_number(number))
    }

    /// The record as it is handed out: with the identifier from the file name
    /// in place of the page's, where the source is set not to use its own.
    pub open spec fn finished(&self, movie: MovieView, file_number: Seq<char>) -> MovieView {
        if self.source_allow_use_site_number == Some(false) {
            MovieView { number: file_number, ..movie }
        } else {
            movie
        }
    }

    /// What the lookup comes to once the page with index `index` was asked
    /// for and `response` came back, where `rest` is what the addresses after
    /// it come to: the record on the page where it is valid; an error where
    /// the page cannot be read; else `rest`.
    pub open spec fn after_page(
        &self,
        file_number: Seq<char>,
        number: Seq<char>,
        index: int,
        response: Option<Seq<char>>,
        rest: Result<Option<MovieView>, ConfigError>,
    ) -> Result<Option<MovieView>, ConfigError> {
        match response {
            None => rest,
            Some(html) => match self.page_movie(html, self.detail_text(number, index)) {
                Err(e) => Err(e),
                Ok(movie) => if movie.is_valid() {
                    Ok(Some(self.finished(movie, file_number)))
                } else {
                    rest
                },
            },
        }
    }

    /// What the addresses from the one with index `index` on come to, in the
    /// web `web`: the first valid record, or none.
    pub open spec fn details_outcome(
        &self,
        file_number: Seq<char>,
        number: Seq<char>,
        index: int,
        web: spec_fn(Seq<char>) -> Option<Seq<char>>,
    ) -> Result<Option<MovieView>, ConfigError>
        decreases self.source_detail_url@.len() - index,
    {
        if index < 0 || index >= self.source_detail_url@.len() {
            Ok(None)
        } else {
            match address_of(self.detail_text(number, index)) {
                Err(e) => Err(e),
                Ok(address) => self.after_page(
                    file_number,
                    number,
                    index,
                    web(address),
                    self.details_outcome(file_number, number, index + 1, web),
                ),
            }
        }
    }

    /// What the lookup comes to once the search page was asked for and
    /// `response` came back: nothing where the source's own identifier is not
    /// found, else what the pages for that identifier come to.
    pub open spec fn after_resolve(
        &self,
        file_number: Seq<char>,
        response: Option<Seq<char>>,
        web: spec_fn(Seq<char>) -> Option<Seq<char>>,
    ) -> Result<Option<MovieView>, ConfigError> {
        match (self.site_search, response) {
            (Some(search), Some(html)) => match search.resolved(html, file_number) {
                Err(e) => Err(e),
                Ok(None) => Ok(None),
                Ok(Some(id)) => self.details_outcome(file_number, id, 0, web),
            },
            _ => Ok(None),
        }
    }

    /// What the lookup comes to after the first page: through the search page
    /// where the source has one, else straight through the pages for the
    /// identifier from the file name.
    pub open spec fn after_gate(
        &self,
        file_number: Seq<char>,
        web: spec_fn(Seq<char>) -> Option<Seq<char>>,
    ) -> Result<Option<MovieView>, ConfigError> {
        match self.site_search {
            Some(search) => match search.address(file_number) {
                Err(e) => Err(e),
                Ok(address) => self.after_resolve(file_number, web(address), web),
            },
            None => self.details_outcome(file_number, file_number, 0, web),
        }
    }

    /// The step that enters the pages for the film: the lookup ends without
    /// a record where no address has the index `index`; it fails where the
    /// address with that index is no URL; else it fetches that address, to
    /// come back at that page.
    pub open spec fn details_step(&self, number: Seq<char>, index: int) -> Result<
        LookupStepView,
        ConfigError,
    > {
        if index < 0 || index >= self.source_detail_url@.len() {
            Ok(LookupStepView::Done(None))
        } else {
            match address_of(self.detail_text(number, index)) {
                Err(e) => Err(e),
                Ok(address) => Ok(
                    LookupStepView::Fetch {
                        address,
                        stage: LookupStageView::Detail { number, index },
                    },
                ),
            }
        }
    }

    /// The step that follows the first page: where the source has a search
    /// page, it fetches the address of that page for `file_number`, to come
    /// back at the search, or fails where that address is no URL; where the
    /// source has none, it enters the pages for the film under the identifier
    /// from the file name, at the first address.
    pub open spec fn resolution_step(&self, file_number: Seq<char>) -> Result<
        LookupStepView,
        ConfigError,
    > {
        match self.site_search {
            Some(search) => match search.address(file_number) {
                Err(e) => Err(e),
                Ok(address) => Ok(
                    LookupStepView::Fetch { address, stage: LookupStageView::Resolve },
                ),
            },
            None => self.details_step(file_number, 0),
        }
    }

    /// The first step of a lookup: where the source wants a page visited
    /// first, it fetches that page's address with its pair, to come back at
    /// the stage `Gate`, or fails where that address is no URL; else it takes
    /// the step that `resolution_step` says.
    pub open spec fn search_step(&self, file_number: Seq<char>) -> Result<
        LookupStepView,
        ConfigError,
    > {
        match self.source_age_check {
            Some(gate) => match address_with_pair(gate.url@, gate.target_name@, gate.target_url@) {
                Err(e) => Err(e),
                Ok(address) => Ok(LookupStepView::Fetch { address, stage: LookupStageView::Gate }),
            },
            None => self.resolution_step(file_number),
        }
    }

    /// The step that follows when `response` came back at the stage `stage`.
    /// After the first page comes the step of `resolution_step`, whatever
    /// came back. After the search, the lookup ends without a record where the
    /// page did not come or does not hold the identifier, and enters the
    /// pages for the film under the source's own identifier where it does.
    /// After a page for the film, the lookup ends with the record on it where
    /// that is valid, and enters the next address where the page did not come
    /// or holds no valid record.
    pub open spec fn resume_step(
        &self,
        file_number: Seq<char>,
        stage: LookupStageView,
        response: Option<Seq<char>>,
    ) -> Result<LookupStepView, ConfigError> {
        match stage {
            LookupStageView::Gate => self.resolution_step(file_number),
            LookupStageView::Resolve => match (self.site_search, response) {
                (Some(search), Some(html)) => match search.resolved(html, file_number) {
                    Err(e) => Err(e),
                    Ok(None) => Ok(LookupStepView::Done(None)),
                    Ok(Some(id)) => self.details_step(id, 0),
                },
                _ => Ok(LookupStepView::Done(None)),
            },
            LookupStageView::Detail { number, index } => if 0 <= index
                < self.source_detail_url@.len() {
                match response {
                    None => self.details_step(number, index + 1),
                    Some(html) => match self.page_movie(html, self.detail_text(number, index)) {
                        Err(e) => Err(e),
                        Ok(movie) => if movie.is_valid() {
                            Ok(LookupStepView::Done(Some(self.finished(movie, file_number))))
                        } else {
                            self.details_step(number, index + 1)
                        },
                    },
                }
            } else {
                Ok(LookupStepView::Done(None))
            },
        }
    }

    /// What the lookup of `file_number` comes to in the web `web`. The page
    /// that the source wants visited first is fetched and not read.
    pub open spec fn lookup_outcome(
        &self,
        file_number: Seq<char>,
        web: spec_fn(Seq<char>) -> Option<Seq<char>>,
    ) -> Result<Option<MovieView>, ConfigError> {
        match self.source_age_check {
            Some(gate) => match address_with_pair(gate.url@, gate.target_name@, gate.target_url@) {
                Err(e) => Err(e),
                Ok(_) => self.after_gate(file_number, web),
            },
            None => self.after_gate(file_number, web),
        }
    }

    /// What the lookup comes to once `response` came back at the stage
    /// `stage`.
    pub open spec fn outcome_after(
        &self,
        file_number: Seq<char>,
        stage: LookupStageView,
        response: Option<Seq<char>>,
        web: spec_fn(Seq<char>) -> Option<Seq<char>>,
    ) -> Result<Option<MovieView>, ConfigError> {
        match stage {
            LookupStageView::Gate => self.after_gate(file_number, web),
            LookupStageView::Resolve => self.after_resolve(file_number, response, web),
            LookupStageView::Detail { number, index } => if 0 <= index
                < self.source_detail_url@.len() {
                self.after_page(
                    file_number,
                    number,
                    index,
                    response,
                    self.details_outcome(file_number, number, index + 1, web),
                )
            } else {
                Ok(None)
            },
        }
    }

    /// What the lookup comes to once the step `step` is taken.
    pub open spec fn step_outcome(
        &self,
        file_number: Seq<char>,
        step: Result<LookupStep, ConfigError>,
        web: spec_fn(Seq<char>) -> Option<Seq<char>>,
    ) -> Result<Option<MovieView>, ConfigError> {
        match step {
            Err(e) => Err(e),
            Ok(LookupStep::Done(movie)) => Ok(optional_movie(movie)),
            Ok(LookupStep::Fetch { address, stage }) => self.outcome_after(
                file_number,
                stage@,
                web(address@),
                web,
            ),
        }
    }

    /// The identifier as it goes into an address.
    pub fn search_number_of(&self, number: &str) -> (r: String)
        requires
            self.well_formed(),
        ensures
            r@ == self.search_number(number@),
    {
        let lower: Vec<char> = lowercase_in(&chars_of(number));
        let mut i: usize = self.number_pre_handle.len();
        while i > 0
            invariant
                i <= self.number_pre_handle.len(),
                self.well_formed(),
                lower@ == lowercase_of(number@),
                self.chosen_handle(number@, self.number_pre_handle@.len() as int)
                    == self.chosen_handle(number@, i as int),
            decreases i,
        {
            let handle: &NumberHandle = &self.number_pre_handle[i - 1];
            let applies: bool = same_text(handle.name.as_str(), "*") || {
                let name: Vec<char> = lowercase_in(&chars_of(handle.name.as_str()));
                find_in(&lower, &name).is_some()
            };
            if applies {
                return StringFlow::new(&handle.rule).process_string(number);
            }
            i -= 1;
        }
        number.to_owned()
    }

    /// Enters the pages for the film at the address with index `index`: takes
    /// the step that `details_step` says. Whatever the web holds, the lookup
    /// then comes to what the addresses from that index on come to.
    pub fn enter_details(&self, file_number: &str, number: String, index: usize) -> (r: Result<
        LookupStep,
        ConfigError,
    >)
        requires
            self.well_formed(),
        ensures
            step_result(r) == self.details_step(number@, index as int),
            forall|web: spec_fn(Seq<char>) -> Option<Seq<char>>| #[trigger]
                self.step_outcome(file_number@, r, web) == self.details_outcome(
                    file_number@,
                    number@,
                    index as int,
                    web,
                ),
    {
        if index >= self.source_detail_url.len() {
            return Ok(LookupStep::Done(None));
        }
        let raw: String = fill_in(
            self.source_detail_url[index].as_str(),
            self.search_number_of(number.as_str()).as_str(),
        );
        match page_address(raw.as_str()) {
            Err(e) => Err(e),
            Ok(address) => Ok(
                LookupStep::Fetch { address, stage: LookupStage::Detail { number, index } },
            ),
        }
    }

    /// Enters the search for the source's own identifier, where the source
    /// has a search page, and the pages for the film where it has none: takes
    /// the step that `resolution_step` says. Whatever the web holds, the
    /// lookup then comes to what `after_gate` says.
    pub fn enter_resolution(&self, file_number: &str) -> (r: Result<LookupStep, ConfigError>)
        requires
            self.well_formed(),
        ensures
            step_result(r) == self.resolution_step(file_number@),
            forall|web: spec_fn(Seq<char>) -> Option<Seq<char>>| #[trigger]
                self.step_outcome(file_number@, r, web) == self.after_gate(file_number@, web),
    {
        match &self.site_search {
            Some(search) => match search.search_address(file_number) {
                Err(e) => Err(e),
                Ok(address) => Ok(LookupStep::Fetch { address, stage: LookupStage::Resolve }),
            },
            None => self.enter_details(file_number, file_number.to_owned(), 0),
        }
    }

    /// Begins the lookup of `file_number`: takes the step that `search_step`
    /// says. Whatever the web holds, the lookup comes to what
    /// `lookup_outcome` says.
    pub fn search(&self, file_number: &str) -> (r: Result<LookupStep, ConfigError>)
        requires
            self.well_formed(),
        ensures
            step_result(r) == self.search_step(file_number@),
            forall|web: spec_fn(Seq<char>) -> Option<Seq<char>>| #[trigger]
                self.step_outcome(file_number@, r, web) == self.lookup_outcome(file_number@, web),
    {
        match &self.source_age_check {
            Some(gate) => match page_address_with_pair(
                gate.url.as_str(),
                gate.target_name.as_str(),
                gate.target_url.as_str(),
            ) {
                Err(e) => Err(e),
                Ok(address) => Ok(LookupStep::Fetch { address, stage: LookupStage::Gate }),
            },
            None => self.enter_resolution(file_number),
        }
    }

    /// Takes the lookup on from the stage `stage`, where `response` is the
    /// page that the fetch brought, or nothing where it failed: takes the
    /// step that `resume_step` says. Whatever the web holds, the lookup comes
    /// to the same as before the step.
    pub fn resume(&self, file_number: &str, stage: LookupStage, response: Option<&str>) -> (r:
        Result<LookupStep, ConfigError>)
        requires
            self.well_formed(),
        ensures
            step_result(r) == self.resume_step(file_number@, stage@, optional_page(response)),
            forall|web: spec_fn(Seq<char>) -> Option<Seq<char>>| #[trigger]
                self.step_outcome(file_number@, r, web) == self.outcome_after(
                    file_number@,
                    stage@,
                    optional_page(response),
                    web,
                ),
    {
        match stage {
            LookupStage::Gate => self.enter_resolution(file_number),
            LookupStage::Resolve => match (&self.site_search, response) {
                (Some(search), Some(html)) => match search.resolve(html, file_number) {
                    Err(e) => Err(e),
                    Ok(None) => Ok(LookupStep::Done(None)),
                    Ok(Some(id)) => self.enter_details(file_number, id, 0),
                },
                _ => Ok(LookupStep::Done(None)),
            },
            LookupStage::Detail { number, index } => {
                if index >= self.source_detail_url.len() {
                    return Ok(LookupStep::Done(None));
                }
                match response {
                    None => self.enter_details(file_number, number, index + 1),
                    Some(html) => {
                        let raw: String = fill_in(
                            self.source_detail_url[index].as_str(),
                            self.search_number_of(number.as_str()).as_str(),
                        );
                        match self.parse_to_movie(html, raw) {
                            Err(e) => Err(e),
                            Ok(movie) => {
                                if movie.is_valid() {
                                    let mut found: Movie = movie;
                                    if let Some(false) = self.source_allow_use_site_number {
                                        found.number = file_number.to_owned();
                                    }
                                    Ok(LookupStep::Done(Some(found)))
                                } else {
                                    self.enter_details(file_number, number, index + 1)
                                }
                            },
                        }
                    },
                }
            },
        }
    }
}

/// The pages for a film give only valid records, as long as the identifier
/// from the file name is not empty.
pub proof fn lemma_details_give_valid_records(
    parser: Parser,
    file_number: Seq<char>,
    number: Seq<char>,
    index: int,
    web: spec_fn(Seq<char>) -> Option<Seq<char>>,
)
    requires
        file_number.len() > 0,
    ensures
        parser.details_outcome(file_number, number, index, web) matches Ok(Some(movie))
            ==> movie.is_valid(),
    decreases parser.source_detail_url@.len() - index,
{
    if 0 <= index < parser.source_detail_url@.len() {
        lemma_details_give_valid_records(parser, file_number, number, index + 1, web);
    }
}

/// A lookup hands out only valid records, as long as the identifier from the
/// file name is not empty: records without an identifier or without a title
/// are never handed out.
pub proof fn lemma_lookup_gives_valid_records(
    parser: Parser,
    file_number: Seq<char>,
    web: spec_fn(Seq<char>) -> Option<Seq<char>>,
)
    requires
        file_number.len() > 0,
    ensures
        parser.lookup_outcome(file_number, web) matches Ok(Some(movie)) ==> movie.is_valid(),
{
    lemma_details_give_valid_records(parser, file_number, file_number, 0, web);
    match parser.site_search {
        Some(search) => {
            match search.address(file_number) {
                Ok(address) => {
                    match web(address) {
                        Some(html) => {
                            match search.resolved(html, file_number) {
                                Ok(Some(id)) => {
                                    lemma_details_give_valid_records(
                                        parser,
                                        file_number,
                                        id,
                                        0,
                                        web,
                                    );
                                },
                                _ => {},
                            }
                        },
                        None => {},
                    }
                },
                Err(_) => {},
            }
        },
        None => {},
    }
}

} // verus!
