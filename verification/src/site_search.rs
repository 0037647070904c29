//! Finds the identifier that a source itself uses for a film, on the
//! source's search page.

use crate::config::{apply_chain, rule_views, SiteSearch, StringFlow};
use crate::error::ConfigError;
use crate::parser::{field_list, pair_views, read_list};
use crate::pattern::optional_text;
use crate::request::{address_of, page_address, text_result};
use crate::text::{same_text, text_views};
use crate::xpath::{handle_view, handled};
use vstd::prelude::*;
use vstd::string::StringExecFns;

verus! {

/// Two lists paired place by place, as far as the shorter one goes.
pub open spec fn paired(numbers: Seq<Seq<char>>, ids: Seq<Seq<char>>) -> Seq<
    (Seq<char>, Seq<char>),
> {
    Seq::new(
        if numbers.len() <= ids.len() {
            numbers.len()
        } else {
            ids.len()
        },
        |i: int| (numbers[i], ids[i]),
    )
}

/// The second part of the first pair at or after `from` whose first part is
/// exactly `number`.
pub open spec fn id_of_number(
    pairs: Seq<(Seq<char>, Seq<char>)>,
    number: Seq<char>,
    from: int,
) -> Option<Seq<char>>
    decreases pairs.len() - from,
{
    if from < 0 || from >= pairs.len() {
        None
    } else if pairs[from].0 == number {
        Some(pairs[from].1)
    } else {
        id_of_number(pairs, number, from + 1)
    }
}

/// A result that holds pairs of strings, as plain values.
pub open spec fn pairs_result(r: Result<Vec<(String, String)>, ConfigError>) -> Result<
    Seq<(Seq<char>, Seq<char>)>,
    ConfigError,
> {
    match r {
        Ok(pairs) => Ok(pair_views(pairs@)),
        Err(e) => Err(e),
    }
}

/// A result that holds an optional string, as plain values.
pub open spec fn optional_text_result(r: Result<Option<String>, ConfigError>) -> Result<
    Option<Seq<char>>,
    ConfigError,
> {
    match r {
        Ok(found) => Ok(optional_text(found)),
        Err(e) => Err(e),
    }
}

impl SiteSearch {
    /// What is looked for on the search page: the identifier as the chain for
    /// it makes it.
    pub open spec fn query(&self, number: Seq<char>) -> Seq<char> {
        handled(handle_view(self.site_number_pre_handle), number)
    }

    /// The address of the search page for the identifier `number`.
    pub open spec fn address(&self, number: Seq<char>) -> Result<Seq<char>, ConfigError> {
        address_of(self.url@ + self.query(number))
    }

    /// The candidates on the search page `html`: each identifier with the
    /// source's own one at the same place.
    pub open spec fn candidates(&self, html: Seq<char>) -> Result<
        Seq<(Seq<char>, Seq<char>)>,
        ConfigError,
    > {
        let numbers = field_list(
            html,
            self.expr_number@,
            handle_view(self.site_number_post_handle),
        );
        let ids = field_list(html, self.expr_id@, handle_view(self.site_id_post_handle));
        if numbers is Err || ids is Err {
            Err(ConfigError::InvalidExpression)
        } else {
            Ok(paired(numbers->Ok_0, ids->Ok_0))
        }
    }

    /// The source's own identifier for `number`: that of the first candidate
    /// on the search page `html` whose identifier is exactly `number`.
    pub open spec fn resolved(&self, html: Seq<char>, number: Seq<char>) -> Result<
        Option<Seq<char>>,
        ConfigError,
    > {
        match self.candidates(html) {
            Ok(pairs) => Ok(id_of_number(pairs, number, 0)),
            Err(e) => Err(e),
        }
    }

    /// The address of the search page for the identifier `number`.
    pub fn search_address(&self, number: &str) -> (r: Result<String, ConfigError>)
        requires
            self.well_formed(),
        ensures
            text_result(r) == self.address(number@),
    {
        let query: String = match &self.site_number_pre_handle {
            Some(rules) => StringFlow::new(rules).process_string(number),
            None => number.to_owned(),
        };
        let raw: String = self.url.clone().concat(query.as_str());
        page_address(raw.as_str())
    }

    /// The candidates on the search page `html`.
    pub fn parse_search_result(&self, html: &str) -> (r: Result<
        Vec<(String, String)>,
        ConfigError,
    >)
        requires
            self.well_formed(),
        ensures
            pairs_result(r) == self.candidates(html@),
    {
        let numbers: Vec<String> = read_list(
            html,
            self.expr_number.as_str(),
            &self.site_number_post_handle,
        )?;
        let ids: Vec<String> = read_list(html, self.expr_id.as_str(), &self.site_id_post_handle)?;
        let mut pairs: Vec<(String, String)> = Vec::new();
        let mut i: usize = 0;
        while i < numbers.len() && i < ids.len()
            invariant
                i <= numbers.len(),
                i <= ids.len(),
                pairs.len() == i,
                forall|k: int|
                    0 <= k < i ==> (#[trigger] pairs@[k]).0@ == numbers@[k]@ && pairs@[k].1@
                        == ids@[k]@,
            decreases numbers.len() - i,
        {
            pairs.push((numbers[i].clone(), ids[i].clone()));
            i += 1;
        }
        assert(pair_views(pairs@) =~= paired(text_views(numbers@), text_views(ids@)));
        Ok(pairs)
    }

    /// The source's own identifier for `number`, as the search page `html`
    /// gives it.
    pub fn resolve(&self, html: &str, number: &str) -> (r: Result<Option<String>, ConfigError>)
        requires
            self.well_formed(),
        ensures
            optional_text_result(r) == self.resolved(html@, number@),
    {
        let pairs: Vec<(String, String)> = self.parse_search_result(html)?;
        let mut i: usize = 0;
        while i < pairs.len()
            invariant
                i <= pairs.len(),
                self.candidates(html@) == Ok::<Seq<(Seq<char>, Seq<char>)>, ConfigError>(
                    pair_views(pairs@),
                ),
                id_of_number(pair_views(pairs@), number@, 0) == id_of_number(
                    pair_views(pairs@),
                    number@,
                    i as int,
                ),
            decreases pairs.len() - i,
        {
            assert(pair_views(pairs@)[i as int] == (pairs@[i as int].0@, pairs@[i as int].1@));
            if same_text(pairs[i].0.as_str(), number) {
                return Ok(Some(pairs[i].1.clone()));
            }
            i += 1;
        }
        Ok(None)
    }
}

} // verus!
