//! The record of a film, and how one source's page is read into it.

use crate::config::{chain_well_formed, rule_views, Parser, Rule, RuleView, SiteSearch};
use crate::error::ConfigError;
use crate::pattern::{find_match, first_match, pattern_is_valid};
use crate::text::{
    chars_of, contains, find_in, replace_all, replace_in, same_text, string_of, text_views,
};
use crate::xpath::{
    evaluate_xpath_node, expression_value, handle_view, handle_well_formed, handled, handled_each,
    value_to_string_use_handle, value_to_vec_use_handle, XPathValue, XPathValueView,
};
use vstd::prelude::*;

verus! {

/// What is known of one film.
#[derive(Debug, Default, Clone)]
pub struct Movie {
    pub number: String,
    pub title: String,
    pub studio: String,
    pub year: String,
    pub outline: String,
    pub runtime: String,
    pub director: String,
    pub extra_fanart: Vec<String>,
    pub actor: Vec<(String, String)>,
    pub label: String,
    pub tag: Vec<String>,
    pub release: String,
    pub cover: String,
    pub cover_small: String,
    pub trailer: String,
    pub website: String,
    pub series: String,
    pub uncensored: bool,
    pub user_rating: String,
    pub max_user_rating: String,
    pub user_votes: String,
}

/// A `Movie` as plain values.
pub struct MovieView {
    pub number: Seq<char>,
    pub title: Seq<char>,
    pub studio: Seq<char>,
    pub year: Seq<char>,
    pub outline: Seq<char>,
    pub runtime: Seq<char>,
    pub director: Seq<char>,
    pub extra_fanart: Seq<Seq<char>>,
    pub actor: Seq<(Seq<char>, Seq<char>)>,
    pub label: Seq<char>,
    pub tag: Seq<Seq<char>>,
    pub release: Seq<char>,
    pub cover: Seq<char>,
    pub cover_small: Seq<char>,
    pub trailer: Seq<char>,
    pub website: Seq<char>,
    pub series: Seq<char>,
    pub uncensored: bool,
    pub user_rating: Seq<char>,
    pub max_user_rating: Seq<char>,
    pub user_votes: Seq<char>,
}

/// Pairs of strings as pairs of texts.
pub open spec fn pair_views(v: Seq<(String, String)>) -> Seq<(Seq<char>, Seq<char>)> {
    Seq::new(v.len(), |i: int| (v[i].0@, v[i].1@))
}

impl View for Movie {
    type V = MovieView;

    open spec fn view(&self) -> MovieView {
        MovieView {
            number: self.number@,
            title: self.title@,
            studio: self.studio@,
            year: self.year@,
            outline: self.outline@,
            runtime: self.runtime@,
            director: self.director@,
            extra_fanart: text_views(self.extra_fanart@),
            actor: pair_views(self.actor@),
            label: self.label@,
            tag: text_views(self.tag@),
            release: self.release@,
            cover: self.cover@,
            cover_small: self.cover_small@,
            trailer: self.trailer@,
            website: self.website@,
            series: self.series@,
            uncensored: self.uncensored,
            user_rating: self.user_rating@,
            max_user_rating: self.max_user_rating@,
            user_votes: self.user_votes@,
        }
    }
}

impl MovieView {
    /// A record is valid when it has both an identifier and a title.
    pub open spec fn is_valid(self) -> bool {
        self.number.len() > 0 && self.title.len() > 0
    }
}

/// An actor as written into the description of a film.
#[derive(Debug, Default, Clone)]
pub struct Actor {
    pub name: String,
    pub thumb: String,
}

/// A tag as written into the description of a film.
#[derive(Debug, Clone)]
pub struct Tag {
    pub content: String,
}

/// The tags of a list as texts.
pub open spec fn tag_views(v: Seq<Tag>) -> Seq<Seq<char>> {
    Seq::new(v.len(), |i: int| v[i].content@)
}

impl Movie {
    /// The tags of the film, one `Tag` for each, in order.
    pub fn get_tags(&self) -> (r: Vec<Tag>)
        ensures
            tag_views(r@) == self@.tag,
    {
        let mut out: Vec<Tag> = Vec::new();
        let mut i: usize = 0;
        while i < self.tag.len()
            invariant
                i <= self.tag.len(),
                out.len() == i,
                forall|k: int| 0 <= k < i ==> (#[trigger] out@[k]).content@ == self.tag@[k]@,
            decreases self.tag.len() - i,
        {
            out.push(Tag { content: self.tag[i].clone() });
            i += 1;
        }
        assert(tag_views(out@) =~= text_views(self.tag@));
        out
    }

    /// Whether the record has both an identifier and a title.
    pub fn is_valid(&self) -> (r: bool)
        ensures
            r == self@.is_valid(),
    {
        !self.title.as_str().is_empty() && !self.number.as_str().is_empty()
    }
}

/// The pattern of a year: four digits.
pub open spec fn year_pattern() -> Seq<char> {
    r"\d{4}"@
}

/// The expression for a cover with the identifier `number` put in: it goes
/// where the expression says `$cover_number` or `$identifier`.
pub open spec fn cover_expression(expr: Seq<char>, number: Seq<char>) -> Seq<char> {
    replace_all(replace_all(expr, "$cover_number"@, number), "$identifier"@, number)
}

/// The expression for a cover with the identifier `number` put in.
pub fn cover_expression_of(expr: &str, number: &str) -> (r: String)
    ensures
        r@ == cover_expression(expr@, number@),
{
    let identifier: Vec<char> = chars_of(number);
    let first: Vec<char> = replace_in(&chars_of(expr), &chars_of("$cover_number"), &identifier);
    string_of(&replace_in(&first, &chars_of("$identifier"), &identifier))
}

/// Whether `s` is one of the words that mark a film as uncensored.
pub open spec fn is_uncensored_marker(s: Seq<char>) -> bool {
    s == "無码"@ || s == "無修正"@ || s == "uncensored"@
}

/// Whether one of the words that mark a film as uncensored occurs in `s`.
pub open spec fn holds_uncensored_marker(s: Seq<char>) -> bool {
    contains(s, "無码"@) || contains(s, "無修正"@) || contains(s, "uncensored"@)
}

/// Whether one of the texts is a word that marks a film as uncensored.
pub open spec fn any_uncensored_marker(tags: Seq<Seq<char>>) -> bool {
    exists|i: int| 0 <= i < tags.len() && is_uncensored_marker(#[trigger] tags[i])
}

/// Whether a film is uncensored: as the value of its expression says where
/// that is a truth value; else by the markers in that value where it is not
/// empty; else by the markers among the tags.
pub open spec fn uncensored_of(value: XPathValueView, tags: Seq<Seq<char>>) -> bool {
    match value {
        XPathValueView::Flag(flag) => flag,
        _ => if value.string().len() > 0 {
            holds_uncensored_marker(value.string())
        } else {
            any_uncensored_marker(tags)
        },
    }
}

/// The names of the actors, each with the photo at the same place in the
/// list of photos, or with no photo where that list is too short.
pub open spec fn actors_of(names: Seq<Seq<char>>, photos: Seq<Seq<char>>) -> Seq<
    (Seq<char>, Seq<char>),
> {
    Seq::new(
        names.len(),
        |i: int|
            (
                names[i],
                if i < photos.len() {
                    photos[i]
                } else {
                    Seq::empty()
                },
            ),
    )
}

/// The text of a field: what its expression selects on the page, as one
/// text, reshaped by its chain.
pub open spec fn field_text(html: Seq<char>, expr: Seq<char>, handle: Option<Seq<RuleView>>) -> Result<
    Seq<char>,
    ConfigError,
> {
    match expression_value(html, expr) {
        Ok(value) => Ok(handled(handle, value.string())),
        Err(e) => Err(e),
    }
}

/// The texts of a field: what its expression selects on the page, as a
/// list, each text reshaped by its chain.
pub open spec fn field_list(html: Seq<char>, expr: Seq<char>, handle: Option<Seq<RuleView>>) -> Result<
    Seq<Seq<char>>,
    ConfigError,
> {
    match expression_value(html, expr) {
        Ok(value) => Ok(handled_each(handle, value.list())),
        Err(e) => Err(e),
    }
}

/// The year in a date of release: its first run of four digits, or nothing.
pub open spec fn year_of(release: Seq<char>) -> Seq<char> {
    match first_match(year_pattern(), release) {
        Some(year) => year,
        None => Seq::empty(),
    }
}

/// A result that holds a list of strings, as plain values.
pub open spec fn list_result(r: Result<Vec<String>, ConfigError>) -> Result<
    Seq<Seq<char>>,
    ConfigError,
> {
    match r {
        Ok(texts) => Ok(text_views(texts@)),
        Err(e) => Err(e),
    }
}

/// A result that holds a record, as plain values.
pub open spec fn movie_result(r: Result<Movie, ConfigError>) -> Result<MovieView, ConfigError> {
    match r {
        Ok(movie) => Ok(movie@),
        Err(e) => Err(e),
    }
}

/// The text of a field on the page `html`.
pub fn read_text(html: &str, expr: &str, handle: &Option<Vec<Rule>>) -> (r: Result<
    String,
    ConfigError,
>)
    requires
        handle_well_formed(handle_view(*handle)),
    ensures
        crate::request::text_result(r) == field_text(html@, expr@, handle_view(*handle)),
        r matches Err(e) ==> e == ConfigError::InvalidExpression,
{
    match evaluate_xpath_node(html, expr) {
        Ok(value) => Ok(value_to_string_use_handle(value, handle)),
        Err(e) => Err(e),
    }
}

/// The texts of a field on the page `html`.
pub fn read_list(html: &str, expr: &str, handle: &Option<Vec<Rule>>) -> (r: Result<
    Vec<String>,
    ConfigError,
>)
    requires
        handle_well_formed(handle_view(*handle)),
    ensures
        list_result(r) == field_list(html@, expr@, handle_view(*handle)),
        r matches Err(e) ==> e == ConfigError::InvalidExpression,
{
    match evaluate_xpath_node(html, expr) {
        Ok(value) => Ok(value_to_vec_use_handle(value, handle)),
        Err(e) => Err(e),
    }
}

/// Whether one of the tags is a word that marks a film as uncensored.
pub fn has_uncensored_marker(tags: &Vec<String>) -> (r: bool)
    ensures
        r == any_uncensored_marker(text_views(tags@)),
{
    let mut i: usize = 0;
    while i < tags.len()
        invariant
            i <= tags.len(),
            forall|k: int| 0 <= k < i ==> !is_uncensored_marker(#[trigger] text_views(tags@)[k]),
        decreases tags.len() - i,
    {
        let tag: &str = tags[i].as_str();
        if same_text(tag, "無码") || same_text(tag, "無修正") || same_text(tag, "uncensored") {
            assert(is_uncensored_marker(text_views(tags@)[i as int]));
            return true;
        }
        i += 1;
    }
    false
}

/// Whether a film is uncensored, by the value of its expression and its tags.
pub fn is_marked_uncensored(value: &XPathValue, tags: &Vec<String>) -> (r: bool)
    ensures
        r == uncensored_of(value@, text_views(tags@)),
{
    match value {
        XPathValue::Flag(flag) => *flag,
        _ => {
            let text: String = value.string();
            if !text.as_str().is_empty() {
                let chars: Vec<char> = chars_of(text.as_str());
                find_in(&chars, &chars_of("無码")).is_some() || find_in(
                    &chars,
                    &chars_of("無修正"),
                ).is_some() || find_in(&chars, &chars_of("uncensored")).is_some()
            } else {
                has_uncensored_marker(tags)
            }
        },
    }
}

/// The names of the actors, each with its photo.
pub fn pair_actors(names: Vec<String>, photos: &Vec<String>) -> (r: Vec<(String, String)>)
    ensures
        pair_views(r@) == actors_of(text_views(names@), text_views(photos@)),
{
    let mut out: Vec<(String, String)> = Vec::new();
    let mut i: usize = 0;
    while i < names.len()
        invariant
            i <= names.len(),
            out.len() == i,
            forall|k: int|
                0 <= k < i ==> (#[trigger] out@[k]).0@ == names@[k]@ && out@[k].1@ == (if k
                    < photos@.len() {
                    photos@[k]@
                } else {
                    Seq::<char>::empty()
                }),
        decreases names.len() - i,
    {
        let photo: String = if i < photos.len() {
            photos[i].clone()
        } else {
            String::new()
        };
        out.push((names[i].clone(), photo));
        i += 1;
    }
    assert(pair_views(out@) =~= actors_of(text_views(names@), text_views(photos@)));
    out
}

/// Tells whether the chain, where there is one, is well formed.
pub fn check_handle(handle: &Option<Vec<Rule>>) -> (r: Result<(), ConfigError>)
    ensures
        r is Ok <==> handle_well_formed(handle_view(*handle)),
        r matches Err(e) ==> e == ConfigError::MissingRuleArgument || e
            == ConfigError::MissingConditionArgument,
{
    match handle {
        Some(rules) => check_chain(rules),
        None => Ok(()),
    }
}

/// Tells whether every rule of the chain is well formed.
pub fn check_chain(rules: &Vec<Rule>) -> (r: Result<(), ConfigError>)
    ensures
        r is Ok <==> chain_well_formed(rule_views(rules@)),
        r matches Err(e) ==> e == ConfigError::MissingRuleArgument || e
            == ConfigError::MissingConditionArgument,
{
    let mut i: usize = 0;
    while i < rules.len()
        invariant
            i <= rules.len(),
            forall|k: int| 0 <= k < i ==> (#[trigger] rule_views(rules@)[k]).well_formed(),
        decreases rules.len() - i,
    {
        match rules[i].check() {
            Ok(_) => {},
            Err(e) => {
                assert(!rule_views(rules@)[i as int].well_formed());
                return Err(e);
            },
        }
        i += 1;
    }
    Ok(())
}

impl SiteSearch {
    /// The three chains of the search are well formed.
    pub open spec fn well_formed(&self) -> bool {
        &&& handle_well_formed(handle_view(self.site_number_pre_handle))
        &&& handle_well_formed(handle_view(self.site_number_post_handle))
        &&& handle_well_formed(handle_view(self.site_id_post_handle))
    }

    /// Tells whether the chains of the search are well formed.
    pub fn check(&self) -> (r: Result<(), ConfigError>)
        ensures
            r is Ok <==> self.well_formed(),
            r matches Err(e) ==> e == ConfigError::MissingRuleArgument || e
                == ConfigError::MissingConditionArgument,
    {
        check_handle(&self.site_number_pre_handle)?;
        check_handle(&self.site_number_post_handle)?;
        check_handle(&self.site_id_post_handle)
    }
}

impl Parser {
    /// The chains that reshape identifiers before they go into an address
    /// are well formed.
    pub open spec fn pre_handles_well_formed(&self) -> bool {
        forall|i: int|
            0 <= i < self.number_pre_handle@.len() ==> chain_well_formed(
                rule_views((#[trigger] self.number_pre_handle@[i]).rule@),
            )
    }

    /// The chains of the fields are well formed.
    pub open spec fn fields_well_formed(&self) -> bool {
        &&& handle_well_formed(handle_view(self.replace_number))
        &&& handle_well_formed(handle_view(self.replace_title))
        &&& handle_well_formed(handle_view(self.replace_outline))
        &&& handle_well_formed(handle_view(self.replace_studio))
        &&& handle_well_formed(handle_view(self.replace_director))
        &&& handle_well_formed(handle_view(self.replace_cover))
        &&& handle_well_formed(handle_view(self.replace_small_cover))
        &&& handle_well_formed(handle_view(self.replace_extra_fanart))
        &&& handle_well_formed(handle_view(self.replace_actor_name))
        &&& handle_well_formed(handle_view(self.replace_actor_photo))
        &&& handle_well_formed(handle_view(self.replace_runtime))
        &&& handle_well_formed(handle_view(self.replace_tags))
        &&& handle_well_formed(handle_view(self.replace_label))
        &&& handle_well_formed(handle_view(self.replace_series))
        &&& handle_well_formed(handle_view(self.replace_release))
        &&& handle_well_formed(handle_view(self.replace_userrating))
        &&& handle_well_formed(handle_view(self.replace_uservotes))
    }

    /// Every chain of the source is well formed.
    pub open spec fn well_formed(&self) -> bool {
        &&& self.fields_well_formed()
        &&& self.pre_handles_well_formed()
        &&& match self.site_search {
            Some(search) => search.well_formed(),
            None => true,
        }
    }

    /// Tells whether every chain of the source is well formed.
    pub fn check(&self) -> (r: Result<(), ConfigError>)
        ensures
            r is Ok <==> self.well_formed(),
            r matches Err(e) ==> e == ConfigError::MissingRuleArgument || e
                == ConfigError::MissingConditionArgument,
    {
        check_handle(&self.replace_number)?;
        check_handle(&self.replace_title)?;
        check_handle(&self.replace_outline)?;
        check_handle(&self.replace_studio)?;
        check_handle(&self.replace_director)?;
        check_handle(&self.replace_cover)?;
        check_handle(&self.replace_small_cover)?;
        check_handle(&self.replace_extra_fanart)?;
        check_handle(&self.replace_actor_name)?;
        check_handle(&self.replace_actor_photo)?;
        check_handle(&self.replace_runtime)?;
        check_handle(&self.replace_tags)?;
        check_handle(&self.replace_label)?;
        check_handle(&self.replace_series)?;
        check_handle(&self.replace_release)?;
        check_handle(&self.replace_userrating)?;
        check_handle(&self.replace_uservotes)?;
        let mut i: usize = 0;
        while i < self.number_pre_handle.len()
            invariant
                i <= self.number_pre_handle.len(),
                self.fields_well_formed(),
                forall|k: int|
                    0 <= k < i ==> chain_well_formed(
                        rule_views((#[trigger] self.number_pre_handle@[k]).rule@),
                    ),
            decreases self.number_pre_handle.len() - i,
        {
            match check_chain(&self.number_pre_handle[i].rule) {
                Ok(_) => {},
                Err(e) => {
                    return Err(e);
                },
            }
            i += 1;
        }
        match &self.site_search {
            Some(search) => search.check(),
            None => Ok(()),
        }
    }

    /// Whether one of the field expressions of the source cannot be
    /// evaluated on the page `html`.
    pub open spec fn some_expression_fails(&self, html: Seq<char>) -> bool {
        let number = field_text(html, self.expr_number@, handle_view(self.replace_number));
        ||| number is Err
        ||| expression_value(html, self.expr_title@) is Err
        ||| expression_value(html, self.expr_studio@) is Err
        ||| expression_value(html, self.expr_release@) is Err
        ||| expression_value(html, self.expr_runtime@) is Err
        ||| expression_value(html, self.expr_outline@) is Err
        ||| expression_value(html, self.expr_director@) is Err
        ||| expression_value(html, self.expr_actor_name@) is Err
        ||| expression_value(html, self.expr_actor_photo@) is Err
        ||| expression_value(html, cover_expression(self.expr_cover@, number->Ok_0)) is Err
        ||| expression_value(html, cover_expression(self.expr_small_cover@, number->Ok_0))
            is Err
        ||| expression_value(html, self.expr_extra_fanart@) is Err
        ||| expression_value(html, self.expr_trailer@) is Err
        ||| expression_value(html, self.expr_tags@) is Err
        ||| expression_value(html, self.expr_label@) is Err
        ||| expression_value(html, self.expr_series@) is Err
        ||| expression_value(html, self.expr_userrating@) is Err
        ||| expression_value(html, self.expr_uservotes@) is Err
        ||| expression_value(html, self.expr_uncensored@) is Err
    }

    /// The record that the page `html` gives, where every expression can be
    /// evaluated: each field is what its expression selects, reshaped by its
    /// chain. The year is taken from the date of release, the address is
    /// `url`, and the highest rating is the one that the source declares.
    pub open spec fn movie_on_page(&self, html: Seq<char>, url: Seq<char>) -> MovieView {
        let number = field_text(html, self.expr_number@, handle_view(self.replace_number))->Ok_0;
        let release = field_text(html, self.expr_release@, handle_view(self.replace_release))->Ok_0;
        let tags = field_list(html, self.expr_tags@, handle_view(self.replace_tags))->Ok_0;
        MovieView {
            number,
            title: field_text(html, self.expr_title@, handle_view(self.replace_title))->Ok_0,
            studio: field_text(html, self.expr_studio@, handle_view(self.replace_studio))->Ok_0,
            year: year_of(release),
            outline: field_text(html, self.expr_outline@, handle_view(self.replace_outline))->Ok_0,
            runtime: field_text(html, self.expr_runtime@, handle_view(self.replace_runtime))->Ok_0,
            director: field_text(
                html,
                self.expr_director@,
                handle_view(self.replace_director),
            )->Ok_0,
            extra_fanart: field_list(
                html,
                self.expr_extra_fanart@,
                handle_view(self.replace_extra_fanart),
            )->Ok_0,
            actor: actors_of(
                field_list(html, self.expr_actor_name@, handle_view(self.replace_actor_name))->Ok_0,
                field_list(
                    html,
                    self.expr_actor_photo@,
                    handle_view(self.replace_actor_photo),
                )->Ok_0,
            ),
            label: field_text(html, self.expr_label@, handle_view(self.replace_label))->Ok_0,
            tag: tags,
            release,
            cover: field_text(
                html,
                cover_expression(self.expr_cover@, number),
                handle_view(self.replace_cover),
            )->Ok_0,
            cover_small: field_text(
                html,
                cover_expression(self.expr_small_cover@, number),
                handle_view(self.replace_small_cover),
            )->Ok_0,
            trailer: field_text(html, self.expr_trailer@, None)->Ok_0,
            website: url,
            series: field_text(html, self.expr_series@, handle_view(self.replace_series))->Ok_0,
            uncensored: uncensored_of(expression_value(html, self.expr_uncensored@)->Ok_0, tags),
            user_rating: field_text(
                html,
                self.expr_userrating@,
                handle_view(self.replace_userrating),
            )->Ok_0,
            max_user_rating: match self.source_max_userrating {
                Some(highest) => highest@,
                None => Seq::empty(),
            },
            user_votes: field_text(
                html,
                self.expr_uservotes@,
                handle_view(self.replace_uservotes),
            )->Ok_0,
        }
    }

    /// What the page `html` gives: an error where an expression cannot be
    /// evaluated or the pattern of a year is refused, else the record.
    pub open spec fn page_movie(&self, html: Seq<char>, url: Seq<char>) -> Result<
        MovieView,
        ConfigError,
    > {
        if self.some_expression_fails(html) {
            Err(ConfigError::InvalidExpression)
        } else if !pattern_is_valid(year_pattern()) {
            Err(ConfigError::InvalidPattern)
        } else {
            Ok(self.movie_on_page(html, url))
        }
    }

    /// Reads the page `html`, fetched from `detail_url`, into a record.
    pub fn parse_to_movie(&self, html: &str, detail_url: String) -> (r: Result<Movie, ConfigError>)
        requires
            self.well_formed(),
        ensures
            movie_result(r) == self.page_movie(html@, detail_url@),
    {
        let number: String = read_text(html, self.expr_number.as_str(), &self.replace_number)?;
        let title: String = read_text(html, self.expr_title.as_str(), &self.replace_title)?;
        let studio: String = read_text(html, self.expr_studio.as_str(), &self.replace_studio)?;
        let release: String = read_text(html, self.expr_release.as_str(), &self.replace_release)?;
        let runtime: String = read_text(html, self.expr_runtime.as_str(), &self.replace_runtime)?;
        let outline: String = read_text(html, self.expr_outline.as_str(), &self.replace_outline)?;
        let director: String = read_text(
            html,
            self.expr_director.as_str(),
            &self.replace_director,
        )?;
        let names: Vec<String> = read_list(
            html,
            self.expr_actor_name.as_str(),
            &self.replace_actor_name,
        )?;
        let photos: Vec<String> = read_list(
            html,
            self.expr_actor_photo.as_str(),
            &self.replace_actor_photo,
        )?;
        let cover_expr: String = cover_expression_of(self.expr_cover.as_str(), number.as_str());
        let cover: String = read_text(html, cover_expr.as_str(), &self.replace_cover)?;
        let small_expr: String = cover_expression_of(
            self.expr_small_cover.as_str(),
            number.as_str(),
        );
        let cover_small: String = read_text(html, small_expr.as_str(), &self.replace_small_cover)?;
        let extra_fanart: Vec<String> = read_list(
            html,
            self.expr_extra_fanart.as_str(),
            &self.replace_extra_fanart,
        )?;
        let no_handle: Option<Vec<Rule>> = None;
        let trailer: String = read_text(html, self.expr_trailer.as_str(), &no_handle)?;
        let tags: Vec<String> = read_list(html, self.expr_tags.as_str(), &self.replace_tags)?;
        let label: String = read_text(html, self.expr_label.as_str(), &self.replace_label)?;
        let series: String = read_text(html, self.expr_series.as_str(), &self.replace_series)?;
        let user_rating: String = read_text(
            html,
            self.expr_userrating.as_str(),
            &self.replace_userrating,
        )?;
        let user_votes: String = read_text(
            html,
            self.expr_uservotes.as_str(),
            &self.replace_uservotes,
        )?;
        let flag: XPathValue = evaluate_xpath_node(html, self.expr_uncensored.as_str())?;
        let uncensored: bool = is_marked_uncensored(&flag, &tags);
        let year: String = match find_match(r"\d{4}", release.as_str())? {
            Some(found) => found,
            None => String::new(),
        };
        let max_user_rating: String = match &self.source_max_userrating {
            Some(highest) => highest.clone(),
            None => String::new(),
        };
        let actor: Vec<(String, String)> = pair_actors(names, &photos);
        Ok(
            Movie {
                number,
                title,
                studio,
                year,
                outline,
                runtime,
                director,
                extra_fanart,
                actor,
                label,
                tag: tags,
                release,
                cover,
                cover_small,
                trailer,
                website: detail_url,
                series,
                uncensored,
                user_rating,
                max_user_rating,
                user_votes,
            },
        )
    }

    /// Whether there is a record and it has both an identifier and a title.
    pub fn is_movie_valid(&self, movie: &Option<Movie>) -> (r: bool)
        ensures
            r == (movie matches Some(m) && m@.is_valid()),
    {
        match movie {
            Some(m) => m.is_valid(),
            None => false,
        }
    }
}

} // verus!
