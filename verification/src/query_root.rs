//! The entry points of the query surface.
//!
//! An entry point that reads the store says which rows it wants and
//! makes its answer of the rows that came back; the reading itself
//! happens outside of it.

use crate::collection::Nft;
use crate::error::Error;
use vstd::multiset::Multiset;
use vstd::prelude::*;
use vstd::string::StringExecFns;

verus! {

/// A creator of tokens.
#[derive(Debug)]
pub struct Creator {
    pub address: String,
}

/// A wallet.
#[derive(Debug)]
pub struct Wallet {
    pub address: String,
}

/// A storefront.
#[derive(Debug)]
pub struct Storefront {
    pub owner_address: String,
    pub subdomain: String,
    pub title: String,
    pub description: String,
    pub favicon_url: String,
    pub logo_url: String,
    pub updated_at: Option<i64>,
    pub banner_url: String,
    pub address: String,
}

/// A marketplace.
#[derive(Debug)]
pub struct Marketplace {
    pub config_address: String,
    pub subdomain: String,
    pub name: String,
    pub description: String,
    pub logo_url: String,
    pub banner_url: String,
    pub owner_address: String,
    pub auction_house_address: String,
}

/// A filter on the attributes of a token: the token must have the trait
/// with one of the values.
#[derive(Debug)]
pub struct AttributeFilter {
    pub trait_type: String,
    pub values: Vec<String>,
}

/// One attribute of a token.
#[derive(Debug)]
pub struct Attribute {
    pub metadata_address: String,
    pub trait_type: String,
    pub value: String,
}

/// The wallets by which tokens are selected.
#[derive(Debug)]
pub enum NftSelector {
    /// Tokens held, one apiece, by one of these owners.
    Owners(Vec<String>),
    /// Tokens made by one of these creators.
    Creators(Vec<String>),
}

/// The order in which selected tokens are returned.
#[derive(Debug, Clone, Copy, PartialEq, Eq, Structural)]
pub enum NftOrder {
    NameDescending,
}

/// What the tokens query asks of the store.
#[derive(Debug)]
pub struct NftQuery {
    pub selector: NftSelector,
    /// Every one of these must admit the token.
    pub attributes: Vec<AttributeFilter>,
    pub order: NftOrder,
}

/// An error in the arguments of a field, with a payload that names the
/// arguments that were misused.
#[derive(Debug)]
pub struct FieldError {
    /// Always `Argument`.
    pub kind: Error,
    pub message: String,
    pub extension_key: String,
    pub extension_value: String,
}

/// One request to the profile provider.
#[derive(Debug)]
pub struct ProfileRequest {
    pub url: String,
    pub accept: String,
    pub query_key: String,
    pub query_value: String,
}

/// What the profile provider tells of a user.
#[derive(Debug)]
pub struct ProfileShowResponse {
    pub screen_name: String,
    pub profile_banner_url: String,
}

/// What the profile provider tells of a user's picture.
#[derive(Debug)]
pub struct ProfilePictureResponse {
    pub profile_image_url: String,
}

/// The profile of a user.
#[derive(Debug)]
pub struct Profile {
    pub handle: String,
    pub profile_image_url: String,
    pub banner_image_url: String,
}

/// The texts of a list of strings.
pub open spec fn string_texts(list: Seq<String>) -> Seq<Seq<char>> {
    list.map_values(|s: String| s@)
}

/// The filter admits a token with the attributes `attrs`: one of them has
/// the filter's trait and one of the filter's values.
pub open spec fn filter_admits(f: AttributeFilter, attrs: Seq<Attribute>) -> bool {
    exists|i: int|
        0 <= i < attrs.len() && (#[trigger] attrs[i]).trait_type@ == f.trait_type@ && string_texts(
            f.values@,
        ).contains(attrs[i].value@)
}

/// Every filter admits a token with the attributes `attrs`.
pub open spec fn filters_admit(filters: Seq<AttributeFilter>, attrs: Seq<Attribute>) -> bool {
    forall|j: int| 0 <= j < filters.len() ==> filter_admits(#[trigger] filters[j], attrs)
}

/// The message for a query without a selector.
pub open spec fn no_filter_message() -> Seq<char> {
    "No filter provided! Please provide at least one of the filters"@
}

/// The message for a query with both selectors.
pub open spec fn both_filters_message() -> Seq<char> {
    "Please pass either owners or creators, not both"@
}

/// The payload key of a selector error.
pub open spec fn filters_key() -> Seq<char> {
    "Filters"@
}

/// The payload value of a selector error.
pub open spec fn filters_value() -> Seq<char> {
    "owners: Vec<String>, creators: Vec<String>"@
}

fn contains_text(list: &Vec<String>, s: &String) -> (b: bool)
    ensures
        b == string_texts(list@).contains(s@),
{
    let mut i: usize = 0;
    while i < list.len()
        invariant
            i <= list.len(),
            forall|n: int| 0 <= n < i ==> #[trigger] string_texts(list@)[n] != s@,
        decreases list.len() - i,
    {
        if list[i] == *s {
            assert(string_texts(list@)[i as int] == s@);
            return true;
        }
        i += 1;
    }
    false
}

impl AttributeFilter {
    /// Whether the filter admits a token with the attributes `attrs`.
    pub fn admits(&self, attrs: &Vec<Attribute>) -> (b: bool)
        ensures
            b == filter_admits(*self, attrs@),
    {
        let mut i: usize = 0;
        while i < attrs.len()
            invariant
                i <= attrs.len(),
                forall|n: int|
                    0 <= n < i ==> !((#[trigger] attrs[n]).trait_type@ == self.trait_type@
                        && string_texts(self.values@).contains(attrs[n].value@)),
            decreases attrs.len() - i,
        {
            if attrs[i].trait_type == self.trait_type && contains_text(
                &self.values,
                &attrs[i].value,
            ) {
                return true;
            }
            i += 1;
        }
        false
    }
}

impl NftQuery {
    /// Whether every attribute filter of the query admits a token with
    /// the attributes `attrs`.
    pub fn admits(&self, attrs: &Vec<Attribute>) -> (b: bool)
        ensures
            b == filters_admit(self.attributes@, attrs@),
    {
        let mut j: usize = 0;
        while j < self.attributes.len()
            invariant
                j <= self.attributes.len(),
                forall|n: int| 0 <= n < j ==> filter_admits(#[trigger] self.attributes[n], attrs@),
            decreases self.attributes.len() - j,
        {
            if !self.attributes[j].admits(attrs) {
                return false;
            }
            j += 1;
        }
        true
    }
}

/// The text `a` comes before the text `b` in the order of strings: at
/// the first place where they differ `a` holds the lower character, or
/// `a` ends where `b` goes on.
pub open spec fn text_before(a: Seq<char>, b: Seq<char>) -> bool
    decreases a.len(),
{
    if b.len() == 0 {
        false
    } else if a.len() == 0 {
        true
    } else if a[0] != b[0] {
        (a[0] as u32) < (b[0] as u32)
    } else {
        text_before(a.skip(1), b.skip(1))
    }
}

/// The rows stand in descending order of name.
pub open spec fn names_descend(rows: Seq<Nft>) -> bool {
    forall|i: int, j: int|
        0 <= i < j < rows.len() ==> !text_before((#[trigger] rows[i]).name@, (#[trigger] rows[j]).name@)
}

/// `String`'s `<`: the order of strings is lexicographic by character,
/// and a character is lower when its code point is.
#[verifier::external_body]
fn string_before(a: &String, b: &String) -> (before: bool)
    ensures
        before == text_before(a@, b@),
{
    a < b
}

/// No text comes before a text that comes before it.
pub proof fn lemma_text_before_asymmetric(a: Seq<char>, b: Seq<char>)
    requires
        text_before(a, b),
    ensures
        !text_before(b, a),
    decreases a.len(),
{
    if a.len() > 0 && b.len() > 0 && a[0] == b[0] {
        lemma_text_before_asymmetric(a.skip(1), b.skip(1));
    }
}

/// The order of strings is transitive.
pub proof fn lemma_text_before_transitive(a: Seq<char>, b: Seq<char>, c: Seq<char>)
    requires
        text_before(a, b),
        text_before(b, c),
    ensures
        text_before(a, c),
    decreases a.len(),
{
    if a.len() > 0 && a[0] == b[0] && b[0] == c[0] {
        lemma_text_before_transitive(a.skip(1), b.skip(1), c.skip(1));
    }
}

fn position_of_last_name(rows: &Vec<Nft>) -> (m: usize)
    requires
        rows.len() > 0,
    ensures
        m < rows.len(),
        forall|k: int| 0 <= k < rows.len() ==> !text_before(rows[m as int].name@, (#[trigger] rows[k]).name@),
{
    let mut m: usize = 0;
    let mut j: usize = 1;
    proof {
        if text_before(rows[0].name@, rows[0].name@) {
            lemma_text_before_asymmetric(rows[0].name@, rows[0].name@);
        }
    }
    while j < rows.len()
        invariant
            m < j <= rows.len(),
            forall|k: int| 0 <= k < j ==> !text_before(rows[m as int].name@, (#[trigger] rows[k]).name@),
        decreases rows.len() - j,
    {
        if string_before(&rows[m].name, &rows[j].name) {
            proof {
                assert forall|k: int| 0 <= k < j + 1 implies !text_before(
                    rows[j as int].name@,
                    (#[trigger] rows[k]).name@,
                ) by {
                    if text_before(rows[j as int].name@, rows[k].name@) {
                        if k == j {
                            lemma_text_before_asymmetric(rows[j as int].name@, rows[k].name@);
                        } else {
                            lemma_text_before_transitive(
                                rows[m as int].name@,
                                rows[j as int].name@,
                                rows[k].name@,
                            );
                        }
                    }
                }
            }
            m = j;
        }
        j += 1;
    }
    m
}

/// Puts the rows in descending order of name. The result holds the same
/// rows, each as often as it came.
pub fn order_by_name_descending(rows: Vec<Nft>) -> (out: Vec<Nft>)
    ensures
        out@.to_multiset() == rows@.to_multiset(),
        names_descend(out@),
{
    broadcast use vstd::seq_lib::group_to_multiset_ensures;

    let mut rest = rows;
    let mut out: Vec<Nft> = Vec::new();
    assert(out@.to_multiset().add(rest@.to_multiset()) =~= rows@.to_multiset());
    while rest.len() > 0
        invariant
            out@.to_multiset().add(rest@.to_multiset()) == rows@.to_multiset(),
            names_descend(out@),
            forall|i: int, k: int|
                0 <= i < out.len() && 0 <= k < rest.len() ==> !text_before(
                    (#[trigger] out[i]).name@,
                    (#[trigger] rest[k]).name@,
                ),
        decreases rest.len(),
    {
        let m = position_of_last_name(&rest);
        let ghost before_rest = rest@;
        let ghost before_out = out@;
        let row = rest.remove(m);
        out.push(row);
        proof {
            assert(before_rest[m as int] == row);
            assert(before_rest.contains(row));
            before_rest.to_multiset_ensures();
            vstd::seq_lib::to_multiset_remove(before_rest, m as int);
            vstd::seq_lib::to_multiset_build(before_out, row);
            assert(rest@ == before_rest.remove(m as int));
            assert(out@ == before_out.push(row));
            assert(before_rest.to_multiset().count(row) > 0);
            assert(out@.to_multiset().add(rest@.to_multiset()) =~= before_out.to_multiset().add(
                before_rest.to_multiset(),
            ));
            assert forall|i: int, k: int| 0 <= i < out.len() && 0 <= k < rest.len() implies !text_before(
                (#[trigger] out[i]).name@,
                (#[trigger] rest[k]).name@,
            ) by {
                let from = if k < m { k } else { k + 1 };
                assert(rest[k] == before_rest[from]);
                if i < before_out.len() {
                    assert(out[i] == before_out[i]);
                }
            }
            assert forall|i: int, j: int| 0 <= i < j < out.len() implies !text_before(
                (#[trigger] out[i]).name@,
                (#[trigger] out[j]).name@,
            ) by {
                assert(out[i] == before_out[i]);
                if j < before_out.len() {
                    assert(out[j] == before_out[j]);
                } else {
                    assert(out[j] == before_rest[m as int]);
                }
            }
        }
    }
    assert(rest@.to_multiset() =~= Multiset::<Nft>::empty()) by {
        assert(rest@ =~= Seq::empty());
    }
    assert(out@.to_multiset() =~= rows@.to_multiset());
    out
}

impl NftQuery {
    /// Puts the rows that the store returned for the query in the order
    /// that the query asks for: by name, descending.
    pub fn arrange(&self, rows: Vec<Nft>) -> (out: Vec<Nft>)
        ensures
            out@.to_multiset() == rows@.to_multiset(),
            names_descend(out@),
    {
        match self.order {
            NftOrder::NameDescending => order_by_name_descending(rows),
        }
    }
}

/// The root of the query surface.
#[derive(Debug, Clone, Copy)]
pub struct QueryRoot;

impl QueryRoot {
    /// The creator with the given address.
    pub fn creator(&self, address: String) -> (c: Creator)
        ensures
            c.address == address,
    {
        Creator { address }
    }

    /// The wallet with the given address.
    pub fn wallet(&self, address: String) -> (w: Option<Wallet>)
        ensures
            w matches Some(wallet) && wallet.address == address,
    {
        Some(Wallet { address })
    }

    /// Checks the arguments of the tokens query and says what it asks of
    /// the store.
    ///
    /// Exactly one of `owners` and `creators` must be given. The query
    /// selects by the one that is given, under every attribute filter,
    /// and orders by name, descending.
    pub fn nfts(
        &self,
        owners: Option<Vec<String>>,
        creators: Option<Vec<String>>,
        attributes: Option<Vec<AttributeFilter>>,
    ) -> (r: Result<NftQuery, FieldError>)
        ensures
            r matches Err(e) ==> e.kind == Error::Argument,
            owners is None && creators is None ==> (r matches Err(e) && e.message@
                == no_filter_message() && e.extension_key@ == filters_key() && e.extension_value@
                == filters_value()),
            owners is Some && creators is Some ==> (r matches Err(e) && e.message@
                == both_filters_message() && e.extension_key@ == filters_key() && e.extension_value@
                == filters_value()),
            owners is Some && creators is None ==> (r matches Ok(q) && q.selector
                == NftSelector::Owners(owners->0) && q.order == NftOrder::NameDescending),
            owners is None && creators is Some ==> (r matches Ok(q) && q.selector
                == NftSelector::Creators(creators->0) && q.order == NftOrder::NameDescending),
            r matches Ok(q) ==> q.attributes@ == match attributes {
                Some(list) => list@,
                None => Seq::empty(),
            },
    {
        let selector = match (owners, creators) {
            (None, None) => {
                return Err(
                    FieldError {
                        kind: Error::Argument,
                        message: String::from_str(
                            "No filter provided! Please provide at least one of the filters",
                        ),
                        extension_key: String::from_str("Filters"),
                        extension_value: String::from_str(
                            "owners: Vec<String>, creators: Vec<String>",
                        ),
                    },
                );
            },
            (Some(_), Some(_)) => {
                return Err(
                    FieldError {
                        kind: Error::Argument,
                        message: String::from_str(
                            "Please pass either owners or creators, not both",
                        ),
                        extension_key: String::from_str("Filters"),
                        extension_value: String::from_str(
                            "owners: Vec<String>, creators: Vec<String>",
                        ),
                    },
                );
            },
            (Some(list), None) => NftSelector::Owners(list),
            (None, Some(list)) => NftSelector::Creators(list),
        };
        let filters = match attributes {
            Some(list) => list,
            None => Vec::new(),
        };
        Ok(NftQuery { selector, attributes: filters, order: NftOrder::NameDescending })
    }

    /// The token among the rows that a read by address returned: the last
    /// row, nothing where no row came back.
    pub fn nft(&self, rows: Vec<Nft>) -> (r: Option<Nft>)
        ensures
            r == if rows.len() == 0 {
                None
            } else {
                Some(rows@.last())
            },
    {
        let mut rows = rows;
        rows.pop()
    }

    /// The storefront among the rows that a read by subdomain returned:
    /// the last row, nothing where no row came back.
    pub fn storefront(&self, rows: Vec<Storefront>) -> (r: Option<Storefront>)
        ensures
            r == if rows.len() == 0 {
                None
            } else {
                Some(rows@.last())
            },
    {
        let mut rows = rows;
        rows.pop()
    }

    /// The marketplace among the rows that a read by subdomain returned:
    /// the last row, nothing where no row came back.
    pub fn marketplace(&self, rows: Vec<Marketplace>) -> (r: Option<Marketplace>)
        ensures
            r == if rows.len() == 0 {
                None
            } else {
                Some(rows@.last())
            },
    {
        let mut rows = rows;
        rows.pop()
    }

    /// The two requests that a profile lookup sends to the provider at
    /// `base`: one for the user by screen name, one for the user's
    /// picture by handle.
    pub fn profile_requests(&self, base: &str, handle: &str) -> (r: (ProfileRequest, ProfileRequest))
        ensures
            r.0.url@ == base@ + "/1.1/users/show.json"@,
            r.0.accept@ == "application/json"@,
            r.0.query_key@ == "screen_name"@,
            r.0.query_value@ == handle@,
            r.1.url@ == base@ + "/2/users/by/username/"@ + handle@,
            r.1.accept@ == "application/json"@,
            r.1.query_key@ == "user.fields"@,
            r.1.query_value@ == "profile_image_url"@,
    {
        let show = ProfileRequest {
            url: String::from_str(base).concat("/1.1/users/show.json"),
            accept: String::from_str("application/json"),
            query_key: String::from_str("screen_name"),
            query_value: String::from_str(handle),
        };
        let picture = ProfileRequest {
            url: String::from_str(base).concat("/2/users/by/username/").concat(handle),
            accept: String::from_str("application/json"),
            query_key: String::from_str("user.fields"),
            query_value: String::from_str("profile_image_url"),
        };
        (show, picture)
    }

    /// The profile that the two answers of the provider make. An answer
    /// that did not arrive, or could not be read, leaves the profile
    /// absent.
    pub fn profile(
        &self,
        show: Result<ProfileShowResponse, Error>,
        picture: Result<ProfilePictureResponse, Error>,
    ) -> (r: Option<Profile>)
        ensures
            match (show, picture) {
                (Ok(s), Ok(p)) => r == Some(
                    Profile {
                        handle: s.screen_name,
                        profile_image_url: p.profile_image_url,
                        banner_image_url: s.profile_banner_url,
                    },
                ),
                _ => r is None,
            },
    {
        match show {
            Ok(s) => match picture {
                Ok(p) => Some(
                    Profile {
                        handle: s.screen_name,
                        profile_image_url: p.profile_image_url,
                        banner_image_url: s.profile_banner_url,
                    },
                ),
                Err(_) => None,
            },
            Err(_) => None,
        }
    }
}

} // verus!
