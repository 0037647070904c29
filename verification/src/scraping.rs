//! The search for a film over the sources of a configuration.
//!
//! The sources are tried one after the other, in an order that puts first
//! those that the extractor of the identifier names; the first valid record
//! ends the search. Fields of the record are then translated where that is
//! asked for.

use crate::config::{NumberExtractor, NumberExtractorView, Parser, SourcesHolder, Translate};
use crate::error::ConfigError;
use crate::lookup::{
    optional_movie, optional_page, step_result, LookupStage, LookupStageView, LookupStep,
    LookupStepView,
};
use crate::parser::{Movie, MovieView};
use crate::pattern::optional_text;
use crate::text::{listed, same_text, split_list, text_views};
use crate::translator::{
    translation_in, AzureTranslator, AzureTranslatorView, TranslationRequest,
    TranslationRequestView,
};
use vstd::prelude::*;

verus! {

/// The place of the first text at or after `from` that is exactly `key`.
pub open spec fn position_of(list: Seq<Seq<char>>, key: Seq<char>, from: int) -> Option<int>
    decreases list.len() - from,
{
    if from < 0 || from >= list.len() {
        None
    } else if list[from] == key {
        Some(from)
    } else {
        position_of(list, key, from + 1)
    }
}

/// The list with `key` moved to the place `index`: its first occurrence is
/// taken out and put in there. A list that does not hold `key`, or holds it
/// at its start, stays as it is.
pub open spec fn moved(list: Seq<Seq<char>>, index: int, key: Seq<char>) -> Seq<Seq<char>> {
    match position_of(list, key, 0) {
        Some(at) => if at > 0 {
            list.remove(at).insert(index, key)
        } else {
            list
        },
        None => list,
    }
}

/// The list with the preferred names moved to its front, in the order of
/// `preferred`, as far as the list holds them.
pub open spec fn promoted(list: Seq<Seq<char>>, preferred: Seq<Seq<char>>) -> Seq<Seq<char>>
    decreases preferred.len(),
{
    if preferred.len() == 0 {
        list
    } else {
        moved(promoted(list, preferred.skip(1)), 0, preferred[0])
    }
}

/// `position_of` finds a place in the list that holds `key`, and none holds
/// it between `from` and there.
pub proof fn lemma_position_of(list: Seq<Seq<char>>, key: Seq<char>, from: int)
    requires
        0 <= from,
    ensures
        match position_of(list, key, from) {
            Some(at) => from <= at < list.len() && list[at] == key && forall|j: int|
                from <= j < at ==> list[j] != key,
            None => forall|j: int| from <= j < list.len() ==> list[j] != key,
        },
    decreases list.len() - from,
{
    if from < list.len() && list[from] != key {
        lemma_position_of(list, key, from + 1);
    }
}

/// Moving a name within a list neither adds nor drops an entry.
pub proof fn lemma_moved_keeps_entries(list: Seq<Seq<char>>, key: Seq<char>)
    ensures
        moved(list, 0, key).to_multiset() == list.to_multiset(),
        moved(list, 0, key).len() == list.len(),
{
    lemma_position_of(list, key, 0);
    match position_of(list, key, 0) {
        Some(at) => {
            if at > 0 {
                broadcast use vstd::multiset::group_multiset_axioms;

                let without = list.remove(at);
                vstd::seq_lib::to_multiset_remove(list, at);
                vstd::seq_lib::to_multiset_insert(without, 0, key);
                list.to_multiset_ensures();
                assert(list.contains(key));
                assert(moved(list, 0, key).to_multiset() =~= list.to_multiset());
            }
        },
        None => {},
    }
}

/// Promoting names within a list neither adds nor drops an entry: the result
/// holds each name as often as the list did.
pub proof fn lemma_promoted_keeps_entries(list: Seq<Seq<char>>, preferred: Seq<Seq<char>>)
    ensures
        promoted(list, preferred).to_multiset() == list.to_multiset(),
        promoted(list, preferred).len() == list.len(),
    decreases preferred.len(),
{
    if preferred.len() > 0 {
        lemma_promoted_keeps_entries(list, preferred.skip(1));
        lemma_moved_keeps_entries(promoted(list, preferred.skip(1)), preferred[0]);
    }
}

/// The names of a list that are none of `names`, in their order.
pub open spec fn others(list: Seq<Seq<char>>, names: Seq<Seq<char>>) -> Seq<Seq<char>> {
    list.filter(|name: Seq<char>| !names.contains(name))
}

/// Moving one of `names` to the front of a list leaves the names that are
/// none of them in their order.
pub proof fn lemma_moved_keeps_order_of_others(
    list: Seq<Seq<char>>,
    key: Seq<char>,
    names: Seq<Seq<char>>,
)
    requires
        names.contains(key),
    ensures
        others(moved(list, 0, key), names) == others(list, names),
{
    lemma_position_of(list, key, 0);
    match position_of(list, key, 0) {
        Some(at) => {
            if at > 0 {
                let keep = |name: Seq<char>| !names.contains(name);
                let before = list.take(at);
                let after = list.skip(at + 1);
                let one = Seq::<Seq<char>>::empty().push(key);
                assert(list =~= before + one + after);
                assert(moved(list, 0, key) =~= one + (before + after));
                Seq::<Seq<char>>::empty().lemma_filter_push(key, keep);
                assert(Seq::<Seq<char>>::empty().filter(keep) =~= Seq::<Seq<char>>::empty()) by {
                    reveal(Seq::filter);
                }
                assert(one.filter(keep) =~= Seq::<Seq<char>>::empty());
                Seq::filter_distributes_over_add(before + one, after, keep);
                Seq::filter_distributes_over_add(before, one, keep);
                Seq::filter_distributes_over_add(one, before + after, keep);
                Seq::filter_distributes_over_add(before, after, keep);
                assert(others(moved(list, 0, key), names) =~= others(list, names));
            }
        },
        None => {},
    }
}

/// Promoting names leaves the names that are none of `names` in their order,
/// where `names` holds every name that is promoted.
pub proof fn lemma_promoted_keeps_order_among(
    list: Seq<Seq<char>>,
    preferred: Seq<Seq<char>>,
    names: Seq<Seq<char>>,
)
    requires
        forall|i: int| 0 <= i < preferred.len() ==> names.contains(#[trigger] preferred[i]),
    ensures
        others(promoted(list, preferred), names) == others(list, names),
    decreases preferred.len(),
{
    if preferred.len() > 0 {
        let rest = preferred.skip(1);
        assert forall|i: int| 0 <= i < rest.len() implies names.contains(#[trigger] rest[i]) by {
            assert(rest[i] == preferred[i + 1]);
        }
        lemma_promoted_keeps_order_among(list, rest, names);
        lemma_moved_keeps_order_of_others(promoted(list, rest), preferred[0], names);
    }
}

/// The reorder is stable: the sources that are not preferred keep the order
/// that they had.
pub proof fn lemma_promoted_is_stable(list: Seq<Seq<char>>, preferred: Seq<Seq<char>>)
    ensures
        others(promoted(list, preferred), preferred) == others(list, preferred),
{
    assert forall|i: int| 0 <= i < preferred.len() implies preferred.contains(
        #[trigger] preferred[i],
    ) by {}
    lemma_promoted_keeps_order_among(list, preferred, preferred);
}

/// A name that the list holds stands at the front once it was moved there.
pub proof fn lemma_moved_comes_first(list: Seq<Seq<char>>, key: Seq<char>)
    requires
        position_of(list, key, 0) is Some,
    ensures
        moved(list, 0, key)[0] == key,
{
    lemma_position_of(list, key, 0);
}

/// Moves the first `key` of `sources` to the place `index`. A list that does
/// not hold `key`, or holds it at its start, stays as it is.
pub fn replace_sources_item(sources: &mut Vec<String>, index: usize, key: &str)
    requires
        position_of(text_views(old(sources)@), key@, 0) matches Some(at) && at > 0 ==> index < old(
            sources,
        ).len(),
    ensures
        text_views(final(sources)@) == moved(text_views(old(sources)@), index as int, key@),
{
    let mut at: usize = 0;
    while at < sources.len()
        invariant
            at <= sources.len(),
            position_of(text_views(sources@), key@, 0) matches Some(place) && place > 0 ==> index
                < sources.len(),
            sources@ == old(sources)@,
            position_of(text_views(sources@), key@, 0) == position_of(
                text_views(sources@),
                key@,
                at as int,
            ),
        decreases sources.len() - at,
    {
        if same_text(sources[at].as_str(), key) {
            if at > 0 {
                let ghost before = text_views(sources@);
                let entry: String = sources.remove(at);
                assert(entry@ == key@);
                assert(text_views(sources@) =~= before.remove(at as int));
                let ghost without = text_views(sources@);
                sources.insert(index, entry);
                assert(text_views(sources@) =~= without.insert(index as int, key@));
            }
            return ;
        }
        at += 1;
    }
}

impl SourcesHolder {
    /// The names of the sources, in the order in which they are listed.
    pub open spec fn names(&self) -> Seq<Seq<char>> {
        Seq::new(self.sources@.len(), |i: int| self.sources@[i].0@)
    }

    /// The source that `name` stands for: the first that is listed under it.
    pub open spec fn named(&self, name: Seq<char>) -> Option<Parser> {
        match position_of(self.names(), name, 0) {
            Some(at) => Some(self.sources@[at].1),
            None => None,
        }
    }

    /// Every source of the holder is well formed.
    pub open spec fn well_formed(&self) -> bool {
        forall|i: int| 0 <= i < self.sources@.len() ==> (#[trigger] self.sources@[i]).1.well_formed()
    }

    /// The source that `name` stands for.
    pub fn get(&self, name: &str) -> (r: Option<&Parser>)
        ensures
            match r {
                Some(parser) => self.named(name@) == Some(*parser),
                None => self.named(name@) is None,
            },
            self.well_formed() ==> (r matches Some(parser) ==> parser.well_formed()),
    {
        let mut i: usize = 0;
        while i < self.sources.len()
            invariant
                i <= self.sources.len(),
                position_of(self.names(), name@, 0) == position_of(self.names(), name@, i as int),
            decreases self.sources.len() - i,
        {
            assert(self.names()[i as int] == self.sources@[i as int].0@);
            if same_text(self.sources[i].0.as_str(), name) {
                return Some(&self.sources[i].1);
            }
            i += 1;
        }
        None
    }

    /// Tells whether every source of the holder is well formed.
    pub fn check(&self) -> (r: Result<(), ConfigError>)
        ensures
            r is Ok <==> self.well_formed(),
            r matches Err(e) ==> e == ConfigError::MissingRuleArgument || e
                == ConfigError::MissingConditionArgument,
    {
        let mut i: usize = 0;
        while i < self.sources.len()
            invariant
                i <= self.sources.len(),
                forall|k: int| 0 <= k < i ==> (#[trigger] self.sources@[k]).1.well_formed(),
            decreases self.sources.len() - i,
        {
            match self.sources[i].1.check() {
                Ok(_) => {},
                Err(e) => {
                    return Err(e);
                },
            }
            i += 1;
        }
        Ok(())
    }
}

/// The names of the list that stand for a source of the holder, in order.
pub open spec fn known(list: Seq<Seq<char>>, holder: SourcesHolder) -> Seq<Seq<char>>
    decreases list.len(),
{
    if list.len() == 0 {
        Seq::empty()
    } else if holder.named(list.last()) is Some {
        known(list.drop_last(), holder).push(list.last())
    } else {
        known(list.drop_last(), holder)
    }
}

/// The sources to try, in order: those asked for, or all that are
/// configured where none is asked for; the ones that the extractor prefers
/// moved to the front; and only those that the holder knows.
pub open spec fn reordered(
    configured: Seq<Seq<char>>,
    asked: Seq<Seq<char>>,
    preferred: Option<Seq<Seq<char>>>,
    holder: SourcesHolder,
) -> Seq<Seq<char>> {
    let base = if asked.len() == 0 {
        configured
    } else {
        asked
    };
    let ordered = match preferred {
        Some(names) => promoted(base, names),
        None => base,
    };
    known(ordered, holder)
}

/// Where a search stands: which page or which reply it is waiting for.
#[derive(Debug, Clone)]
pub enum SearchState {
    /// The source at `index` of `try_list` is being asked for the film
    /// `number`, and its lookup stands at `stage`.
    Source { number: String, try_list: Vec<String>, index: usize, stage: LookupStage },
    /// The record `movie` was found, and the field named at `index` of
    /// `names` is being translated; `title` and `outline` hold what was
    /// translated so far.
    Translation {
        movie: Movie,
        names: Vec<String>,
        index: usize,
        title: Option<String>,
        outline: Option<String>,
    },
}

/// What a search does next: fetch a page, ask the translation service, or
/// end with a record or without one. After a fetch or a request the search
/// is taken up again in `state`.
#[derive(Debug, Clone)]
pub enum SearchStep {
    Fetch { address: String, state: SearchState },
    Translate { request: TranslationRequest, state: SearchState },
    Done(Option<Movie>),
}

/// A `SearchState` as plain values.
pub enum SearchStateView {
    Source { number: Seq<char>, try_list: Seq<Seq<char>>, index: int, stage: LookupStageView },
    Translation {
        movie: MovieView,
        names: Seq<Seq<char>>,
        index: int,
        title: Option<Seq<char>>,
        outline: Option<Seq<char>>,
    },
}

impl View for SearchState {
    type V = SearchStateView;

    open spec fn view(&self) -> SearchStateView {
        match self {
            SearchState::Source { number, try_list, index, stage } => SearchStateView::Source {
                number: number@,
                try_list: text_views(try_list@),
                index: *index as int,
                stage: stage@,
            },
            SearchState::Translation {
                movie,
                names,
                index,
                title,
                outline,
            } => SearchStateView::Translation {
                movie: movie@,
                names: text_views(names@),
                index: *index as int,
                title: optional_text(*title),
                outline: optional_text(*outline),
            },
        }
    }
}

/// A `SearchStep` as plain values.
pub enum SearchStepView {
    Fetch { address: Seq<char>, state: SearchStateView },
    Translate { request: TranslationRequestView, state: SearchStateView },
    Done(Option<MovieView>),
}

impl View for SearchStep {
    type V = SearchStepView;

    open spec fn view(&self) -> SearchStepView {
        match self {
            SearchStep::Fetch { address, state } => SearchStepView::Fetch {
                address: address@,
                state: state@,
            },
            SearchStep::Translate { request, state } => SearchStepView::Translate {
                request: request@,
                state: state@,
            },
            SearchStep::Done(movie) => SearchStepView::Done(optional_movie(*movie)),
        }
    }
}

/// A step of a search or an error as plain values.
pub open spec fn search_step_result(r: Result<SearchStep, ConfigError>) -> Result<
    SearchStepView,
    ConfigError,
> {
    match r {
        Ok(step) => Ok(step@),
        Err(e) => Err(e),
    }
}

/// Whether the field called `name` is one that can be translated.
pub open spec fn is_translatable(name: Seq<char>) -> bool {
    name == "title"@ || name == "outline"@
}

/// The text of the field called `name`, which is the title or the outline.
pub open spec fn text_to_translate(movie: MovieView, name: Seq<char>) -> Seq<char> {
    if name == "title"@ {
        movie.title
    } else {
        movie.outline
    }
}

/// The translations of title and outline once the reply `response` came back
/// for the field called `name`: a reply that holds a translation sets that of
/// its field, any other leaves both as they were.
pub open spec fn updated(
    name: Seq<char>,
    title: Option<Seq<char>>,
    outline: Option<Seq<char>>,
    response: Option<Seq<char>>,
) -> (Option<Seq<char>>, Option<Seq<char>>) {
    let translation = match response {
        Some(body) => translation_in(body),
        None => None,
    };
    if translation is None {
        (title, outline)
    } else if name == "title"@ {
        (translation, outline)
    } else if name == "outline"@ {
        (title, translation)
    } else {
        (title, outline)
    }
}

/// The record with its title and its outline replaced by their
/// translations, where there are any.
pub open spec fn with_translations(
    movie: MovieView,
    title: Option<Seq<char>>,
    outline: Option<Seq<char>>,
) -> MovieView {
    MovieView {
        title: match title {
            Some(t) => t,
            None => movie.title,
        },
        outline: match outline {
            Some(o) => o,
            None => movie.outline,
        },
        ..movie
    }
}

/// The sources of a configuration, ready to be searched.
pub struct Scraping {
    sources: Vec<String>,
    parsers: SourcesHolder,
    specified_source: Option<String>,
    debug: bool,
    translate: Translate,
}

impl Scraping {
    #[verifier::type_invariant]
    spec fn holds_well_formed_sources(self) -> bool {
        self.parsers.well_formed()
    }

    /// The names of the configured sources, in their order.
    pub closed spec fn configured(&self) -> Seq<Seq<char>> {
        text_views(self.sources@)
    }

    /// The sources behind the names.
    pub closed spec fn holder(&self) -> SourcesHolder {
        self.parsers
    }

    /// The one source that the last search was pinned to, if it was.
    pub closed spec fn pinned(&self) -> Option<Seq<char>> {
        optional_text(self.specified_source)
    }

    /// Whether and how records are translated.
    pub closed spec fn translation(&self) -> Translate {
        self.translate
    }

    /// Whether progress is reported in detail.
    pub closed spec fn debugging(&self) -> bool {
        self.debug
    }

    /// Records are translated: translation is switched on, and the service
    /// is the one that the library knows.
    pub open spec fn translates(&self) -> bool {
        self.translation().switch && self.translation().engine@ == "azure"@
    }

    /// The translation service as configured.
    pub open spec fn translator(&self) -> AzureTranslatorView {
        AzureTranslatorView {
            service_url: self.translation().service_url@,
            access_key: self.translation().access_key@,
            region: optional_text(self.translation().region),
        }
    }

    /// The request that asks for the field called `name` to be translated,
    /// from Japanese into simplified Chinese.
    pub open spec fn translation_request(
        &self,
        movie: MovieView,
        name: Seq<char>,
    ) -> TranslationRequestView {
        self.translator().request(text_to_translate(movie, name), "ja"@, "zh-Hans"@)
    }

    /// The record once the fields named from `from` on were translated by
    /// the service `service`, where `title` and `outline` hold what was
    /// translated before. Names of fields that cannot be translated are
    /// passed over.
    pub open spec fn translated_from(
        &self,
        movie: MovieView,
        names: Seq<Seq<char>>,
        from: int,
        title: Option<Seq<char>>,
        outline: Option<Seq<char>>,
        service: spec_fn(TranslationRequestView) -> Option<Seq<char>>,
    ) -> MovieView
        decreases names.len() - from,
    {
        if from < 0 || from >= names.len() {
            with_translations(movie, title, outline)
        } else if is_translatable(names[from]) {
            let next = updated(
                names[from],
                title,
                outline,
                service(self.translation_request(movie, names[from])),
            );
            self.translated_from(movie, names, from + 1, next.0, next.1, service)
        } else {
            self.translated_from(movie, names, from + 1, title, outline, service)
        }
    }

    /// The record as the search hands it out: translated where records are
    /// translated, else as it was found.
    pub open spec fn translated(
        &self,
        movie: MovieView,
        service: spec_fn(TranslationRequestView) -> Option<Seq<char>>,
    ) -> MovieView {
        if self.translates() {
            self.translated_from(
                movie,
                listed(self.translation().values@, ','),
                0,
                None,
                None,
                service,
            )
        } else {
            movie
        }
    }

    /// The step that takes the translation on from the field named at
    /// `from`: it asks the service for the first field from there on that can
    /// be translated, to come back at that field; where none is left, the
    /// search ends with the record and what was translated.
    pub open spec fn translation_step_from(
        &self,
        movie: MovieView,
        names: Seq<Seq<char>>,
        from: int,
        title: Option<Seq<char>>,
        outline: Option<Seq<char>>,
    ) -> SearchStepView
        decreases names.len() - from,
    {
        if from < 0 || from >= names.len() {
            SearchStepView::Done(Some(with_translations(movie, title, outline)))
        } else if is_translatable(names[from]) {
            SearchStepView::Translate {
                request: self.translation_request(movie, names[from]),
                state: SearchStateView::Translation { movie, names, index: from, title, outline },
            }
        } else {
            self.translation_step_from(movie, names, from + 1, title, outline)
        }
    }

    /// The step that follows a record found: where records are not
    /// translated, the search ends with the record and the service is not
    /// asked; else the translation begins at the first field named.
    pub open spec fn translation_step(&self, movie: MovieView) -> SearchStepView {
        if self.translates() {
            self.translation_step_from(
                movie,
                listed(self.translation().values@, ','),
                0,
                None,
                None,
            )
        } else {
            SearchStepView::Done(Some(movie))
        }
    }

    /// What a step of the lookup at the source at `index` is to the search:
    /// a fetch stays a fetch, to come back at that source; a record goes on
    /// to translation; a lookup without a record gives way to `rest`, the
    /// step of the sources after it; an error ends the search.
    pub open spec fn lifted(
        &self,
        try_list: Seq<Seq<char>>,
        number: Seq<char>,
        index: int,
        step: Result<LookupStepView, ConfigError>,
        rest: Result<SearchStepView, ConfigError>,
    ) -> Result<SearchStepView, ConfigError> {
        match step {
            Err(e) => Err(e),
            Ok(LookupStepView::Fetch { address, stage }) => Ok(
                SearchStepView::Fetch {
                    address,
                    state: SearchStateView::Source { number, try_list, index, stage },
                },
            ),
            Ok(LookupStepView::Done(Some(movie))) => Ok(self.translation_step(movie)),
            Ok(LookupStepView::Done(None)) => rest,
        }
    }

    /// The step that begins the search at the source at `from`: the first
    /// step of the first source from there on that does not end at once
    /// without a record; the search ends without a record where no such
    /// source is left. Names that stand for no source are passed over.
    pub open spec fn source_step(
        &self,
        try_list: Seq<Seq<char>>,
        number: Seq<char>,
        from: int,
    ) -> Result<SearchStepView, ConfigError>
        decreases try_list.len() - from,
    {
        if from < 0 || from >= try_list.len() {
            Ok(SearchStepView::Done(None))
        } else {
            match self.holder().named(try_list[from]) {
                None => self.source_step(try_list, number, from + 1),
                Some(parser) => self.lifted(
                    try_list,
                    number,
                    from,
                    parser.search_step(number),
                    self.source_step(try_list, number, from + 1),
                ),
            }
        }
    }

    /// The step that follows when `response` came back in the state `state`.
    /// At a source, it is the next step of that source's lookup, taken over
    /// into the search. At a translation, a reply that holds one sets the
    /// translation of its field, and the translation goes on with the field
    /// named next.
    pub open spec fn resume_step(
        &self,
        state: SearchStateView,
        response: Option<Seq<char>>,
    ) -> Result<SearchStepView, ConfigError> {
        match state {
            SearchStateView::Source { number, try_list, index, stage } => if 0 <= index
                < try_list.len() {
                match self.holder().named(try_list[index]) {
                    None => self.source_step(try_list, number, index + 1),
                    Some(parser) => self.lifted(
                        try_list,
                        number,
                        index,
                        parser.resume_step(number, stage, response),
                        self.source_step(try_list, number, index + 1),
                    ),
                }
            } else {
                Ok(SearchStepView::Done(None))
            },
            SearchStateView::Translation { movie, names, index, title, outline } => if 0 <= index
                < names.len() {
                let next = updated(names[index], title, outline, response);
                Ok(self.translation_step_from(movie, names, index + 1, next.0, next.1))
            } else {
                Ok(SearchStepView::Done(Some(with_translations(movie, title, outline))))
            },
        }
    }

    /// What the sources of `try_list` from the one at `from` on come to for
    /// the film `number`, in the web `web`: the record of the first source
    /// whose lookup finds one. A name that stands for no source is passed
    /// over; an error of the configuration ends the search.
    pub open spec fn sources_outcome(
        &self,
        try_list: Seq<Seq<char>>,
        from: int,
        number: Seq<char>,
        web: spec_fn(Seq<char>) -> Option<Seq<char>>,
    ) -> Result<Option<MovieView>, ConfigError>
        decreases try_list.len() - from,
    {
        if from < 0 || from >= try_list.len() {
            Ok(None)
        } else {
            match self.holder().named(try_list[from]) {
                None => self.sources_outcome(try_list, from + 1, number, web),
                Some(parser) => match parser.lookup_outcome(number, web) {
                    Err(e) => Err(e),
                    Ok(Some(movie)) => Ok(Some(movie)),
                    Ok(None) => self.sources_outcome(try_list, from + 1, number, web),
                },
            }
        }
    }

    /// What a lookup that came to `found` makes of the search, where `rest`
    /// is what the sources after it come to.
    pub open spec fn after_lookup(
        &self,
        found: Result<Option<MovieView>, ConfigError>,
        rest: Result<Option<MovieView>, ConfigError>,
        service: spec_fn(TranslationRequestView) -> Option<Seq<char>>,
    ) -> Result<Option<MovieView>, ConfigError> {
        match found {
            Err(e) => Err(e),
            Ok(Some(movie)) => Ok(Some(self.translated(movie, service))),
            Ok(None) => rest,
        }
    }

    /// What the search comes to from the source at `from` of `try_list` on.
    pub open spec fn search_from(
        &self,
        try_list: Seq<Seq<char>>,
        from: int,
        number: Seq<char>,
        web: spec_fn(Seq<char>) -> Option<Seq<char>>,
        service: spec_fn(TranslationRequestView) -> Option<Seq<char>>,
    ) -> Result<Option<MovieView>, ConfigError> {
        self.after_lookup(self.sources_outcome(try_list, from, number, web), Ok(None), service)
    }

    /// The sources to try for a film, in order: the pinned one alone where
    /// one is pinned; else those asked for in `asked`, a list with commas, or
    /// all that are configured, reordered as `reordered` says.
    pub open spec fn try_list(
        &self,
        extractor: NumberExtractorView,
        asked: Option<Seq<char>>,
        pinned: Option<Seq<char>>,
    ) -> Seq<Seq<char>> {
        match pinned {
            Some(name) => seq![name],
            None => reordered(
                self.configured(),
                match asked {
                    Some(names) => listed(names, ','),
                    None => Seq::empty(),
                },
                extractor.sources,
                self.holder(),
            ),
        }
    }

    /// What the search for the film `number` comes to, in the web `web` and
    /// with the translation service `service`.
    pub open spec fn search_outcome(
        &self,
        number: Seq<char>,
        extractor: NumberExtractorView,
        asked: Option<Seq<char>>,
        pinned: Option<Seq<char>>,
        web: spec_fn(Seq<char>) -> Option<Seq<char>>,
        service: spec_fn(TranslationRequestView) -> Option<Seq<char>>,
    ) -> Result<Option<MovieView>, ConfigError> {
        self.search_from(self.try_list(extractor, asked, pinned), 0, number, web, service)
    }

    /// What the search comes to once `response` came back in the state
    /// `state`.
    pub open spec fn outcome_after(
        &self,
        state: SearchState,
        response: Option<Seq<char>>,
        web: spec_fn(Seq<char>) -> Option<Seq<char>>,
        service: spec_fn(TranslationRequestView) -> Option<Seq<char>>,
    ) -> Result<Option<MovieView>, ConfigError> {
        match state {
            SearchState::Source { number, try_list, index, stage } => {
                let rest = self.search_from(text_views(try_list@), index + 1, number@, web, service);
                if index >= try_list@.len() {
                    Ok(None)
                } else {
                    match self.holder().named(try_list@[index as int]@) {
                        None => rest,
                        Some(parser) => self.after_lookup(
                            parser.outcome_after(number@, stage@, response, web),
                            rest,
                            service,
                        ),
                    }
                }
            },
            SearchState::Translation { movie, names, index, title, outline } => {
                if index >= names@.len() {
                    Ok(Some(with_translations(movie@, optional_text(title), optional_text(outline))))
                } else {
                    let next = updated(
                        names@[index as int]@,
                        optional_text(title),
                        optional_text(outline),
                        response,
                    );
                    Ok(
                        Some(
                            self.translated_from(
                                movie@,
                                text_views(names@),
                                index + 1,
                                next.0,
                                next.1,
                                service,
                            ),
                        ),
                    )
                }
            },
        }
    }

    /// What the search comes to once the step `step` is taken.
    pub open spec fn step_outcome(
        &self,
        step: Result<SearchStep, ConfigError>,
        web: spec_fn(Seq<char>) -> Option<Seq<char>>,
        service: spec_fn(TranslationRequestView) -> Option<Seq<char>>,
    ) -> Result<Option<MovieView>, ConfigError> {
        match step {
            Err(e) => Err(e),
            Ok(SearchStep::Done(movie)) => Ok(optional_movie(movie)),
            Ok(SearchStep::Fetch { address, state }) => self.outcome_after(
                state,
                web(address@),
                web,
                service,
            ),
            Ok(SearchStep::Translate { request, state }) => self.outcome_after(
                state,
                service(request@),
                web,
                service,
            ),
        }
    }
}

/// A copy of an optional string.
pub fn copy_optional(text: &Option<String>) -> (r: Option<String>)
    ensures
        optional_text(r) == optional_text(*text),
{
    match text {
        Some(t) => Some(t.clone()),
        None => None,
    }
}

impl Scraping {
    /// The sources of `sources`, ready to be searched, with the settings
    /// given.
    pub fn new(debug: bool, translate: Translate, sources: SourcesHolder) -> (r: Self)
        requires
            sources.well_formed(),
        ensures
            r.configured() == sources.names(),
            r.holder() == sources,
            r.translation() == translate,
            r.debugging() == debug,
            r.pinned() is None,
    {
        let mut names: Vec<String> = Vec::new();
        let mut i: usize = 0;
        while i < sources.sources.len()
            invariant
                i <= sources.sources.len(),
                names.len() == i,
                forall|k: int| 0 <= k < i ==> (#[trigger] names@[k])@ == sources.sources@[k].0@,
            decreases sources.sources.len() - i,
        {
            names.push(sources.sources[i].0.clone());
            i += 1;
        }
        assert(text_views(names@) =~= sources.names());
        Scraping { sources: names, parsers: sources, specified_source: None, debug, translate }
    }

    /// Whether progress is reported in detail.
    pub fn enable_debug(&self) -> (r: bool)
        ensures
            r == self.debugging(),
    {
        self.debug
    }

    /// The sources to try, in order, for a film whose identifier was found
    /// by `number_extractor`, where `sources` are those asked for.
    pub fn get_reorder_sources(&self, sources: Vec<String>, number_extractor: &NumberExtractor) -> (r:
        Vec<String>)
        ensures
            text_views(r@) == reordered(
                self.configured(),
                text_views(sources@),
                number_extractor@.sources,
                self.holder(),
            ),
    {
        let mut ordered: Vec<String> = if sources.len() == 0 {
            crate::text::copy_texts(&self.sources)
        } else {
            sources
        };
        let ghost base = text_views(ordered@);
        match &number_extractor.sources {
            Some(preferred) => {
                let mut k: usize = preferred.len();
                assert(text_views(preferred@).skip(k as int) =~= Seq::<Seq<char>>::empty());
                while k > 0
                    invariant
                        k <= preferred.len(),
                        text_views(ordered@) == promoted(base, text_views(preferred@).skip(k as int)),
                    decreases k,
                {
                    k -= 1;
                    assert(text_views(preferred@).skip(k as int).skip(1) =~= text_views(
                        preferred@,
                    ).skip(k + 1));
                    replace_sources_item(&mut ordered, 0, preferred[k].as_str());
                }
                assert(text_views(preferred@).skip(0) =~= text_views(preferred@));
            },
            None => {},
        }
        let mut kept: Vec<String> = Vec::new();
        let mut i: usize = 0;
        assert(text_views(ordered@).take(0) =~= Seq::<Seq<char>>::empty());
        assert(text_views(kept@) =~= Seq::<Seq<char>>::empty());
        while i < ordered.len()
            invariant
                i <= ordered.len(),
                text_views(kept@) == known(text_views(ordered@).take(i as int), self.holder()),
            decreases ordered.len() - i,
        {
            let ghost before = text_views(kept@);
            assert(text_views(ordered@).take(i + 1).drop_last() =~= text_views(ordered@).take(
                i as int,
            ));
            if self.parsers.get(ordered[i].as_str()).is_some() {
                kept.push(ordered[i].clone());
                assert(text_views(kept@) =~= before.push(ordered@[i as int]@));
            }
            i += 1;
        }
        assert(text_views(ordered@).take(ordered@.len() as int) =~= text_views(ordered@));
        kept
    }

    /// Takes the translation of the record on from the field named at
    /// `from`: asks for the next field that can be translated, or ends with
    /// the record as translated so far.
    pub fn continue_translation(
        &self,
        movie: Movie,
        names: Vec<String>,
        from: usize,
        title: Option<String>,
        outline: Option<String>,
    ) -> (r: SearchStep)
        ensures
            r@ == self.translation_step_from(
                movie@,
                text_views(names@),
                from as int,
                optional_text(title),
                optional_text(outline),
            ),
            forall|
                web: spec_fn(Seq<char>) -> Option<Seq<char>>,
                service: spec_fn(TranslationRequestView) -> Option<Seq<char>>,
            | #[trigger]
                self.step_outcome(Ok(r), web, service) == Ok::<Option<MovieView>, ConfigError>(
                    Some(
                        self.translated_from(
                            movie@,
                            text_views(names@),
                            from as int,
                            optional_text(title),
                            optional_text(outline),
                            service,
                        ),
                    ),
                ),
    {
        let mut i: usize = from;
        while i < names.len()
            invariant
                from <= i,
                self.translation_step_from(
                    movie@,
                    text_views(names@),
                    from as int,
                    optional_text(title),
                    optional_text(outline),
                ) == self.translation_step_from(
                    movie@,
                    text_views(names@),
                    i as int,
                    optional_text(title),
                    optional_text(outline),
                ),
                forall|service: spec_fn(TranslationRequestView) -> Option<Seq<char>>|
                    #[trigger] self.translated_from(
                        movie@,
                        text_views(names@),
                        from as int,
                        optional_text(title),
                        optional_text(outline),
                        service,
                    ) == self.translated_from(
                        movie@,
                        text_views(names@),
                        i as int,
                        optional_text(title),
                        optional_text(outline),
                        service,
                    ),
            decreases names.len() - i,
        {
            let name: &str = names[i].as_str();
            let is_title: bool = same_text(name, "title");
            if is_title || same_text(name, "outline") {
                let translator = AzureTranslator::new(
                    self.translate.service_url.clone(),
                    self.translate.access_key.clone(),
                    copy_optional(&self.translate.region),
                );
                let text: &str = if is_title {
                    movie.title.as_str()
                } else {
                    movie.outline.as_str()
                };
                let request: TranslationRequest = translator.request(text, "ja", "zh-Hans");
                assert(request@ == self.translation_request(movie@, names@[i as int]@));
                return SearchStep::Translate {
                    request,
                    state: SearchState::Translation { movie, names, index: i, title, outline },
                };
            }
            i += 1;
        }
        let ghost found = movie@;
        let mut translated: Movie = movie;
        match title {
            Some(t) => {
                translated.title = t;
            },
            None => {},
        }
        match outline {
            Some(o) => {
                translated.outline = o;
            },
            None => {},
        }
        assert(translated@ == with_translations(found, optional_text(title), optional_text(outline)));
        SearchStep::Done(Some(translated))
    }

    /// Begins the translation of the record that was found, where records
    /// are translated, and ends the search with the record where they are
    /// not.
    pub fn begin_translation(&self, movie: Movie) -> (r: SearchStep)
        ensures
            r@ == self.translation_step(movie@),
            forall|
                web: spec_fn(Seq<char>) -> Option<Seq<char>>,
                service: spec_fn(TranslationRequestView) -> Option<Seq<char>>,
            | #[trigger]
                self.step_outcome(Ok(r), web, service) == Ok::<Option<MovieView>, ConfigError>(
                    Some(self.translated(movie@, service)),
                ),
    {
        if self.translate.switch && same_text(self.translate.engine.as_str(), "azure") {
            let names: Vec<String> = split_list(self.translate.values.as_str(), ',');
            self.continue_translation(movie, names, 0, None, None)
        } else {
            SearchStep::Done(Some(movie))
        }
    }
}

impl Scraping {
    /// Takes one step of a lookup over into the search: a fetch stays a
    /// fetch, a record goes on to translation, and a lookup that found
    /// nothing hands over to the sources after it.
    fn after_step(
        &self,
        number: String,
        try_list: Vec<String>,
        index: usize,
        step: LookupStep,
    ) -> (r: Result<SearchStep, ConfigError>)
        requires
            index < try_list.len(),
            self.holder().named(try_list@[index as int]@) is Some,
        ensures
            search_step_result(r) == self.lifted(
                text_views(try_list@),
                number@,
                index as int,
                Ok(step@),
                self.source_step(text_views(try_list@), number@, index + 1),
            ),
            forall|
                web: spec_fn(Seq<char>) -> Option<Seq<char>>,
                service: spec_fn(TranslationRequestView) -> Option<Seq<char>>,
            | #[trigger]
                self.step_outcome(r, web, service) == self.after_lookup(
                    self.holder().named(try_list@[index as int]@)->Some_0.step_outcome(
                        number@,
                        Ok(step),
                        web,
                    ),
                    self.search_from(text_views(try_list@), index + 1, number@, web, service),
                    service,
                ),
        decreases try_list.len() - index, 0int,
    {
        match step {
            LookupStep::Fetch { address, stage } => Ok(
                SearchStep::Fetch {
                    address,
                    state: SearchState::Source { number, try_list, index, stage },
                },
            ),
            LookupStep::Done(Some(movie)) => Ok(self.begin_translation(movie)),
            LookupStep::Done(None) => self.begin_source(number, try_list, index + 1),
        }
    }

    /// Begins the search at the source at `from` of `try_list`: names the
    /// first page to fetch, or ends the search where no source is left.
    pub fn begin_source(&self, number: String, try_list: Vec<String>, from: usize) -> (r: Result<
        SearchStep,
        ConfigError,
    >)
        ensures
            search_step_result(r) == self.source_step(text_views(try_list@), number@, from as int),
            forall|
                web: spec_fn(Seq<char>) -> Option<Seq<char>>,
                service: spec_fn(TranslationRequestView) -> Option<Seq<char>>,
            | #[trigger]
                self.step_outcome(r, web, service) == self.search_from(
                    text_views(try_list@),
                    from as int,
                    number@,
                    web,
                    service,
                ),
        decreases try_list.len() - from, 1int,
    {
        proof {
            use_type_invariant(self);
        }
        if from >= try_list.len() {
            return Ok(SearchStep::Done(None));
        }
        match self.parsers.get(try_list[from].as_str()) {
            None => self.begin_source(number, try_list, from + 1),
            Some(parser) => {
                let first: Result<LookupStep, ConfigError> = parser.search(number.as_str());
                match first {
                    Err(e) => {
                        assert forall|
                            web: spec_fn(Seq<char>) -> Option<Seq<char>>,
                            service: spec_fn(TranslationRequestView) -> Option<Seq<char>>,
                        | #[trigger]
                            self.step_outcome(Err(e), web, service) == self.search_from(
                                text_views(try_list@),
                                from as int,
                                number@,
                                web,
                                service,
                            ) by {
                            assert(parser.step_outcome(number@, first, web) == Err::<
                                Option<MovieView>,
                                ConfigError,
                            >(e));
                        }
                        Err(e)
                    },
                    Ok(step) => {
                        let ghost names = text_views(try_list@);
                        let ghost film = number@;
                        let r = self.after_step(number, try_list, from, step);
                        assert forall|
                            web: spec_fn(Seq<char>) -> Option<Seq<char>>,
                            service: spec_fn(TranslationRequestView) -> Option<Seq<char>>,
                        | #[trigger]
                            self.step_outcome(r, web, service) == self.search_from(
                                names,
                                from as int,
                                film,
                                web,
                                service,
                            ) by {
                            assert(parser.step_outcome(film, first, web) == parser.lookup_outcome(
                                film,
                                web,
                            ));
                        }
                        r
                    },
                }
            },
        }
    }

    /// Begins the search for the film `number`, whose identifier was found
    /// by `number_extractor`: names the first page to fetch, or ends at once.
    /// `sources` lists the sources asked for, with commas between them;
    /// `specified_source` pins the search to one source. Whatever the web and
    /// the translation service hold, the search comes to what
    /// `search_outcome` says.
    pub fn search(
        &mut self,
        number: &str,
        number_extractor: &NumberExtractor,
        sources: Option<String>,
        specified_source: Option<String>,
    ) -> (r: Result<SearchStep, ConfigError>)
        ensures
            final(self).configured() == old(self).configured(),
            final(self).holder() == old(self).holder(),
            final(self).translation() == old(self).translation(),
            final(self).debugging() == old(self).debugging(),
            final(self).pinned() == optional_text(specified_source),
            search_step_result(r) == final(self).source_step(
                final(self).try_list(
                    number_extractor@,
                    optional_text(sources),
                    optional_text(specified_source),
                ),
                number@,
                0,
            ),
            forall|
                web: spec_fn(Seq<char>) -> Option<Seq<char>>,
                service: spec_fn(TranslationRequestView) -> Option<Seq<char>>,
            | #[trigger]
                final(self).step_outcome(r, web, service) == final(self).search_outcome(
                    number@,
                    number_extractor@,
                    optional_text(sources),
                    optional_text(specified_source),
                    web,
                    service,
                ),
    {
        proof {
            use_type_invariant(&*self);
        }
        let try_list: Vec<String> = match &specified_source {
            Some(name) => {
                let mut only: Vec<String> = Vec::new();
                only.push(name.clone());
                assert(text_views(only@) =~= seq![name@]);
                only
            },
            None => {
                let asked: Vec<String> = match &sources {
                    Some(names) => split_list(names.as_str(), ','),
                    None => {
                        let none: Vec<String> = Vec::new();
                        assert(text_views(none@) =~= Seq::<Seq<char>>::empty());
                        none
                    },
                };
                self.get_reorder_sources(asked, number_extractor)
            },
        };
        self.specified_source = specified_source;
        self.begin_source(number.to_owned(), try_list, 0)
    }

    /// Takes the search on from the state `state`, where `response` is what
    /// came back: the page that was fetched or the reply of the translation
    /// service, or nothing where the exchange failed. Whatever the web and
    /// the service hold, the search comes to the same as before the step.
    pub fn resume(&self, state: SearchState, response: Option<&str>) -> (r: Result<
        SearchStep,
        ConfigError,
    >)
        ensures
            search_step_result(r) == self.resume_step(state@, optional_page(response)),
            forall|
                web: spec_fn(Seq<char>) -> Option<Seq<char>>,
                service: spec_fn(TranslationRequestView) -> Option<Seq<char>>,
            | #[trigger]
                self.step_outcome(r, web, service) == self.outcome_after(
                    state,
                    optional_page(response),
                    web,
                    service,
                ),
    {
        proof {
            use_type_invariant(self);
        }
        match state {
            SearchState::Source { number, try_list, index, stage } => {
                if index >= try_list.len() {
                    return Ok(SearchStep::Done(None));
                }
                match self.parsers.get(try_list[index].as_str()) {
                    None => self.begin_source(number, try_list, index + 1),
                    Some(parser) => {
                        let ghost at = stage@;
                        let next: Result<LookupStep, ConfigError> = parser.resume(
                            number.as_str(),
                            stage,
                            response,
                        );
                        match next {
                            Err(e) => {
                                assert forall|
                                    web: spec_fn(Seq<char>) -> Option<Seq<char>>,
                                    service: spec_fn(TranslationRequestView) -> Option<Seq<char>>,
                                | #[trigger]
                                    self.step_outcome(Err(e), web, service) == self.outcome_after(
                                        state,
                                        optional_page(response),
                                        web,
                                        service,
                                    ) by {
                                    assert(parser.step_outcome(number@, next, web) == Err::<
                                        Option<MovieView>,
                                        ConfigError,
                                    >(e));
                                }
                                Err(e)
                            },
                            Ok(step) => {
                                let r = self.after_step(number, try_list, index, step);
                                assert forall|
                                    web: spec_fn(Seq<char>) -> Option<Seq<char>>,
                                    service: spec_fn(TranslationRequestView) -> Option<Seq<char>>,
                                | #[trigger]
                                    self.step_outcome(r, web, service) == self.outcome_after(
                                        state,
                                        optional_page(response),
                                        web,
                                        service,
                                    ) by {
                                    assert(parser.step_outcome(state->Source_number@, next, web)
                                        == parser.outcome_after(
                                        state->Source_number@,
                                        at,
                                        optional_page(response),
                                        web,
                                    ));
                                }
                                r
                            },
                        }
                    },
                }
            },
            SearchState::Translation { movie, names, index, title, outline } => {
                if index >= names.len() {
                    return Ok(self.continue_translation(movie, names, index, title, outline));
                }
                let reply: Option<String> = match response {
                    Some(body) => AzureTranslator::read_response(body),
                    None => None,
                };
                let name: &str = names[index].as_str();
                let to_title: bool = reply.is_some() && same_text(name, "title");
                let to_outline: bool = reply.is_some() && !to_title && same_text(name, "outline");
                let (new_title, new_outline): (Option<String>, Option<String>) = if to_title {
                    (reply, outline)
                } else if to_outline {
                    (title, reply)
                } else {
                    (title, outline)
                };
                Ok(self.continue_translation(movie, names, index + 1, new_title, new_outline))
            },
        }
    }
}

/// The source at `at` of `try_list` yields no record for `number`: its name
/// stands for no source, or its lookup finds nothing.
pub open spec fn yields_nothing(
    scraping: Scraping,
    try_list: Seq<Seq<char>>,
    at: int,
    number: Seq<char>,
    web: spec_fn(Seq<char>) -> Option<Seq<char>>,
) -> bool {
    match scraping.holder().named(try_list[at]) {
        None => true,
        Some(parser) => parser.lookup_outcome(number, web) == Ok::<Option<MovieView>, ConfigError>(
            None,
        ),
    }
}

/// The source at `at` of `try_list` yields the record `movie` for `number`.
pub open spec fn yields_record(
    scraping: Scraping,
    try_list: Seq<Seq<char>>,
    at: int,
    number: Seq<char>,
    web: spec_fn(Seq<char>) -> Option<Seq<char>>,
    movie: MovieView,
) -> bool {
    match scraping.holder().named(try_list[at]) {
        None => false,
        Some(parser) => parser.lookup_outcome(number, web) == Ok::<Option<MovieView>, ConfigError>(
            Some(movie),
        ),
    }
}

/// Sources that yield nothing are passed over: what the sources from `from`
/// on come to is what those from `upto` on come to, where none between the
/// two yields anything.
pub proof fn lemma_passed_over(
    scraping: Scraping,
    try_list: Seq<Seq<char>>,
    from: int,
    upto: int,
    number: Seq<char>,
    web: spec_fn(Seq<char>) -> Option<Seq<char>>,
)
    requires
        0 <= from <= upto <= try_list.len(),
        forall|k: int| from <= k < upto ==> yields_nothing(scraping, try_list, k, number, web),
    ensures
        scraping.sources_outcome(try_list, from, number, web) == scraping.sources_outcome(
            try_list,
            upto,
            number,
            web,
        ),
    decreases upto - from,
{
    if from < upto {
        assert(yields_nothing(scraping, try_list, from, number, web));
        lemma_passed_over(scraping, try_list, from + 1, upto, number, web);
    }
}

/// Of two sources that would both yield a valid record, the one that stands
/// first in the list of sources to try gives the record of the search, as
/// long as no source before it yields a record or an error.
pub proof fn lemma_earlier_source_wins(
    scraping: Scraping,
    try_list: Seq<Seq<char>>,
    a: int,
    b: int,
    number: Seq<char>,
    web: spec_fn(Seq<char>) -> Option<Seq<char>>,
    first: MovieView,
    second: MovieView,
)
    requires
        0 <= a < b < try_list.len(),
        yields_record(scraping, try_list, a, number, web, first),
        yields_record(scraping, try_list, b, number, web, second),
        forall|k: int| 0 <= k < a ==> yields_nothing(scraping, try_list, k, number, web),
    ensures
        scraping.sources_outcome(try_list, 0, number, web) == Ok::<Option<MovieView>, ConfigError>(
            Some(first),
        ),
{
    lemma_passed_over(scraping, try_list, 0, a, number, web);
}

/// Where every source fails to yield a record, the search comes to no record
/// and to no error.
pub proof fn lemma_all_fail_is_absent(
    scraping: Scraping,
    try_list: Seq<Seq<char>>,
    number: Seq<char>,
    web: spec_fn(Seq<char>) -> Option<Seq<char>>,
    service: spec_fn(TranslationRequestView) -> Option<Seq<char>>,
)
    requires
        forall|k: int|
            0 <= k < try_list.len() ==> yields_nothing(scraping, try_list, k, number, web),
    ensures
        scraping.sources_outcome(try_list, 0, number, web) == Ok::<Option<MovieView>, ConfigError>(
            None,
        ),
        scraping.search_from(try_list, 0, number, web, service) == Ok::<
            Option<MovieView>,
            ConfigError,
        >(None),
{
    lemma_passed_over(scraping, try_list, 0, try_list.len() as int, number, web);
}

/// A service that gives no translation leaves what was translated before as
/// it is.
pub proof fn lemma_no_reply_keeps_translations(
    scraping: Scraping,
    movie: MovieView,
    names: Seq<Seq<char>>,
    from: int,
    title: Option<Seq<char>>,
    outline: Option<Seq<char>>,
    service: spec_fn(TranslationRequestView) -> Option<Seq<char>>,
)
    requires
        0 <= from,
        forall|request: TranslationRequestView|
            (#[trigger] service(request)) matches Some(body) ==> translation_in(body) is None,
    ensures
        scraping.translated_from(movie, names, from, title, outline, service) == with_translations(
            movie,
            title,
            outline,
        ),
    decreases names.len() - from,
{
    if from < names.len() {
        if is_translatable(names[from]) {
            let request = scraping.translation_request(movie, names[from]);
            assert(service(request) matches Some(body) ==> translation_in(body) is None);
        }
        lemma_no_reply_keeps_translations(scraping, movie, names, from + 1, title, outline, service);
    }
}

/// Where the translation service gives no translation, whether it does not
/// answer or answers without one, the record is handed out as it was found:
/// title and outline are untouched, and a valid record stays valid.
pub proof fn lemma_untranslated_record_is_kept(
    scraping: Scraping,
    movie: MovieView,
    service: spec_fn(TranslationRequestView) -> Option<Seq<char>>,
)
    requires
        forall|request: TranslationRequestView|
            (#[trigger] service(request)) matches Some(body) ==> translation_in(body) is None,
    ensures
        scraping.translated(movie, service) == movie,
        movie.is_valid() ==> scraping.translated(movie, service).is_valid(),
{
    lemma_no_reply_keeps_translations(
        scraping,
        movie,
        listed(scraping.translation().values@, ','),
        0,
        None,
        None,
        service,
    );
}

} // verus!
