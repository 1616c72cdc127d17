//! The batched reads of collections: previews, counts, holders, floor
//! prices and the collections themselves.
//!
//! Each loader takes the keys that were requested and what the one query
//! for them returned, and answers every requested key once. A key without
//! rows gets the neutral answer; a failed query fails every key alike.

use crate::batch::{
    distinct_keys, first_occurrences, group_rows, lemma_first_occurrences, rows_of, slot_of, texts,
    Groups,
};
use crate::error::Error;
use crate::rows::views;
use vstd::prelude::*;

verus! {

/// The text of an optional column.
pub open spec fn opt_text(o: Option<String>) -> Option<Seq<char>> {
    match o {
        Some(s) => Some(s@),
        None => None,
    }
}

fn copy_opt(o: &Option<String>) -> (r: Option<String>)
    ensures
        opt_text(r) == opt_text(*o),
{
    match o {
        Some(s) => Some(s.clone()),
        None => None,
    }
}

/// One token as the read layer hands it out.
#[derive(Debug)]
pub struct Nft {
    pub address: String,
    pub name: String,
    pub seller_fee_basis_points: i32,
    pub mint_address: String,
    pub token_account_address: String,
    pub primary_sale_happened: bool,
    pub update_authority_address: String,
    pub uri: String,
    pub description: Option<String>,
    pub image: Option<String>,
    pub animation_url: Option<String>,
    pub external_url: Option<String>,
    pub category: Option<String>,
    pub model: Option<String>,
    pub slot: Option<i64>,
}

/// The view of `Nft`: the same data, as mathematics.
pub struct NftView {
    pub address: Seq<char>,
    pub name: Seq<char>,
    pub seller_fee_basis_points: i32,
    pub mint_address: Seq<char>,
    pub token_account_address: Seq<char>,
    pub primary_sale_happened: bool,
    pub update_authority_address: Seq<char>,
    pub uri: Seq<char>,
    pub description: Option<Seq<char>>,
    pub image: Option<Seq<char>>,
    pub animation_url: Option<Seq<char>>,
    pub external_url: Option<Seq<char>>,
    pub category: Option<Seq<char>>,
    pub model: Option<Seq<char>>,
    pub slot: Option<i64>,
}

impl View for Nft {
    type V = NftView;

    open spec fn view(&self) -> NftView {
        NftView {
            address: self.address@,
            name: self.name@,
            seller_fee_basis_points: self.seller_fee_basis_points,
            mint_address: self.mint_address@,
            token_account_address: self.token_account_address@,
            primary_sale_happened: self.primary_sale_happened,
            update_authority_address: self.update_authority_address@,
            uri: self.uri@,
            description: opt_text(self.description),
            image: opt_text(self.image),
            animation_url: opt_text(self.animation_url),
            external_url: opt_text(self.external_url),
            category: opt_text(self.category),
            model: opt_text(self.model),
            slot: self.slot,
        }
    }
}

impl Clone for Nft {
    fn clone(&self) -> (r: Self)
        ensures
            r@ == self@,
    {
        Nft {
            address: self.address.clone(),
            name: self.name.clone(),
            seller_fee_basis_points: self.seller_fee_basis_points,
            mint_address: self.mint_address.clone(),
            token_account_address: self.token_account_address.clone(),
            primary_sale_happened: self.primary_sale_happened,
            update_authority_address: self.update_authority_address.clone(),
            uri: self.uri.clone(),
            description: copy_opt(&self.description),
            image: copy_opt(&self.image),
            animation_url: copy_opt(&self.animation_url),
            external_url: copy_opt(&self.external_url),
            category: copy_opt(&self.category),
            model: copy_opt(&self.model),
            slot: self.slot,
        }
    }
}

/// One sample token of a creator, as the preview query returns it.
#[derive(Debug)]
pub struct SampleNft {
    pub creator_address: String,
    pub address: String,
    pub name: String,
    pub seller_fee_basis_points: i32,
    pub mint_address: String,
    pub token_account_address: String,
    pub primary_sale_happened: bool,
    pub update_authority_address: String,
    pub uri: String,
    pub description: Option<String>,
    pub image: Option<String>,
    pub animation_url: Option<String>,
    pub external_url: Option<String>,
    pub category: Option<String>,
    pub model: Option<String>,
}

/// The view of `SampleNft`: the same data, as mathematics.
pub struct SampleNftView {
    pub creator_address: Seq<char>,
    pub address: Seq<char>,
    pub name: Seq<char>,
    pub seller_fee_basis_points: i32,
    pub mint_address: Seq<char>,
    pub token_account_address: Seq<char>,
    pub primary_sale_happened: bool,
    pub update_authority_address: Seq<char>,
    pub uri: Seq<char>,
    pub description: Option<Seq<char>>,
    pub image: Option<Seq<char>>,
    pub animation_url: Option<Seq<char>>,
    pub external_url: Option<Seq<char>>,
    pub category: Option<Seq<char>>,
    pub model: Option<Seq<char>>,
}

impl View for SampleNft {
    type V = SampleNftView;

    open spec fn view(&self) -> SampleNftView {
        SampleNftView {
            creator_address: self.creator_address@,
            address: self.address@,
            name: self.name@,
            seller_fee_basis_points: self.seller_fee_basis_points,
            mint_address: self.mint_address@,
            token_account_address: self.token_account_address@,
            primary_sale_happened: self.primary_sale_happened,
            update_authority_address: self.update_authority_address@,
            uri: self.uri@,
            description: opt_text(self.description),
            image: opt_text(self.image),
            animation_url: opt_text(self.animation_url),
            external_url: opt_text(self.external_url),
            category: opt_text(self.category),
            model: opt_text(self.model),
        }
    }
}

/// The token that a sample row describes; a sample carries no slot.
pub open spec fn sample_nft(s: SampleNftView) -> NftView {
    NftView {
        address: s.address,
        name: s.name,
        seller_fee_basis_points: s.seller_fee_basis_points,
        mint_address: s.mint_address,
        token_account_address: s.token_account_address,
        primary_sale_happened: s.primary_sale_happened,
        update_authority_address: s.update_authority_address,
        uri: s.uri,
        description: s.description,
        image: s.image,
        animation_url: s.animation_url,
        external_url: s.external_url,
        category: s.category,
        model: s.model,
        slot: None,
    }
}

/// One row of a collection statistic: a collection and a count.
#[derive(Debug)]
pub struct CollectionCount {
    pub collection: String,
    pub count: i64,
}

/// The view of `CollectionCount`: the same data, as mathematics.
pub struct CollectionCountView {
    pub collection: Seq<char>,
    pub count: i64,
}

impl View for CollectionCount {
    type V = CollectionCountView;

    open spec fn view(&self) -> CollectionCountView {
        CollectionCountView { collection: self.collection@, count: self.count }
    }
}

/// One row of the floor price query: a collection and its floor price,
/// where it has one.
#[derive(Debug)]
pub struct FloorPriceRow {
    pub collection: String,
    pub floor_price: Option<i64>,
}

/// The view of `FloorPriceRow`: the same data, as mathematics.
pub struct FloorPriceRowView {
    pub collection: Seq<char>,
    pub floor_price: Option<i64>,
}

impl View for FloorPriceRow {
    type V = FloorPriceRowView;

    open spec fn view(&self) -> FloorPriceRowView {
        FloorPriceRowView { collection: self.collection@, floor_price: self.floor_price }
    }
}

/// One row of the holders query: a collection and the owner of one of its
/// tokens that is not burned.
#[derive(Debug)]
pub struct CollectionOwner {
    pub collection: String,
    pub owner: String,
}

/// The view of `CollectionOwner`: the same data, as mathematics.
pub struct CollectionOwnerView {
    pub collection: Seq<char>,
    pub owner: Seq<char>,
}

impl View for CollectionOwner {
    type V = CollectionOwnerView;

    open spec fn view(&self) -> CollectionOwnerView {
        CollectionOwnerView { collection: self.collection@, owner: self.owner@ }
    }
}

/// One collection of the third-party feed.
#[derive(Debug)]
pub struct FeedCollection {
    pub id: String,
    pub name: Option<String>,
    pub image: String,
}

/// The view of `FeedCollection`: the same data, as mathematics.
pub struct FeedCollectionView {
    pub id: Seq<char>,
    pub name: Option<Seq<char>>,
    pub image: Seq<char>,
}

impl View for FeedCollection {
    type V = FeedCollectionView;

    open spec fn view(&self) -> FeedCollectionView {
        FeedCollectionView { id: self.id@, name: opt_text(self.name), image: self.image@ }
    }
}

/// The token record that stands for a collection of the third-party
/// feed: its identifier is both address and mint, its name and image are
/// its own, and every other column has its neutral value.
pub open spec fn feed_collection_nft(c: FeedCollectionView) -> NftView {
    NftView {
        address: c.id,
        name: match c.name {
            Some(n) => n,
            None => Seq::empty(),
        },
        seller_fee_basis_points: 0,
        mint_address: c.id,
        token_account_address: Seq::empty(),
        primary_sale_happened: false,
        update_authority_address: Seq::empty(),
        uri: Seq::empty(),
        description: Some(Seq::empty()),
        image: Some(c.image),
        animation_url: Some(Seq::empty()),
        external_url: Some(Seq::empty()),
        category: Some(Seq::empty()),
        model: Some(Seq::empty()),
        slot: Some(0),
    }
}

/// A collection: the token record that describes it.
#[derive(Debug)]
pub struct Collection(pub Nft);

/// The number of tokens in a collection.
#[derive(Debug, Clone, Copy, PartialEq, Eq, Structural)]
pub struct CollectionNftCount(pub i64);

/// The lowest price at which a token of a collection is listed.
#[derive(Debug, Clone, Copy, PartialEq, Eq, Structural)]
pub struct CollectionFloorPrice(pub i64);

/// The number of distinct wallets that hold a token of a collection.
#[derive(Debug, Clone, Copy, PartialEq, Eq, Structural)]
pub struct CollectionHoldersCount(pub i64);

impl From<i64> for CollectionNftCount {
    fn from(value: i64) -> (r: Self) {
        CollectionNftCount(value)
    }
}

impl vstd::std_specs::convert::FromSpecImpl<i64> for CollectionNftCount {
    open spec fn obeys_from_spec() -> bool {
        true
    }

    open spec fn from_spec(value: i64) -> Self {
        CollectionNftCount(value)
    }
}

impl From<i64> for CollectionFloorPrice {
    fn from(value: i64) -> (r: Self) {
        CollectionFloorPrice(value)
    }
}

impl vstd::std_specs::convert::FromSpecImpl<i64> for CollectionFloorPrice {
    open spec fn obeys_from_spec() -> bool {
        true
    }

    open spec fn from_spec(value: i64) -> Self {
        CollectionFloorPrice(value)
    }
}

impl From<i64> for CollectionHoldersCount {
    fn from(value: i64) -> (r: Self) {
        CollectionHoldersCount(value)
    }
}

impl vstd::std_specs::convert::FromSpecImpl<i64> for CollectionHoldersCount {
    open spec fn obeys_from_spec() -> bool {
        true
    }

    open spec fn from_spec(value: i64) -> Self {
        CollectionHoldersCount(value)
    }
}

/// The answer of a batched read: every requested key once, in the order
/// of first request, and beside it the value or the failure for that key.
pub struct BatchMap<V> {
    pub keys: Vec<String>,
    pub values: Vec<Result<V, Error>>,
}

impl<V> BatchMap<V> {
    /// The batch answers the request `keys`: it holds each requested key
    /// once, in the order of first request, and a value beside each.
    pub open spec fn answers(&self, keys: Seq<Seq<char>>) -> bool {
        &&& self.keys.len() == self.values.len()
        &&& texts(self.keys@) == first_occurrences(keys)
    }

    /// The answer for `key`, if the key was requested.
    pub fn get(&self, key: &String) -> (r: Option<&Result<V, Error>>)
        requires
            self.keys.len() == self.values.len(),
        ensures
            match r {
                Some(v) => exists|j: int|
                    0 <= j < self.keys.len() && self.keys[j]@ == key@ && *v == self.values[j] && (
                    forall|n: int| 0 <= n < j ==> #[trigger] texts(self.keys@)[n] != key@),
                None => !texts(self.keys@).contains(key@),
            },
    {
        match slot_of(&self.keys, key) {
            Some(j) => Some(&self.values[j]),
            None => None,
        }
    }

    /// The batch in which every requested key fails with `e`.
    pub fn failed(keys: &[String], e: Error) -> (out: BatchMap<V>)
        ensures
            out.answers(texts(keys@)),
            forall|j: int| 0 <= j < out.values.len() ==> out.values[j] == Err::<V, Error>(e),
    {
        let distinct = distinct_keys(keys);
        let mut values: Vec<Result<V, Error>> = Vec::new();
        let mut j: usize = 0;
        while j < distinct.len()
            invariant
                j <= distinct.len(),
                values.len() == j,
                forall|n: int| 0 <= n < j ==> values[n] == Err::<V, Error>(e),
            decreases distinct.len() - j,
        {
            values.push(Err(e));
            j += 1;
        }
        BatchMap { keys: distinct, values }
    }
}

// ----- keys of rows -----------------------------------------------------

/// The creator that a sample row belongs to.
pub open spec fn sample_key() -> spec_fn(SampleNftView) -> Seq<char> {
    |s: SampleNftView| s.creator_address
}

/// The collection that a count row belongs to.
pub open spec fn count_key() -> spec_fn(CollectionCountView) -> Seq<char> {
    |c: CollectionCountView| c.collection
}

/// The collection that a floor price row belongs to.
pub open spec fn floor_key() -> spec_fn(FloorPriceRowView) -> Seq<char> {
    |f: FloorPriceRowView| f.collection
}

/// The collection that an owner row belongs to.
pub open spec fn owner_key() -> spec_fn(CollectionOwnerView) -> Seq<char> {
    |o: CollectionOwnerView| o.collection
}

/// The identifier that a token record answers to: its mint.
pub open spec fn mint_key() -> spec_fn(NftView) -> Seq<char> {
    |n: NftView| n.mint_address
}

// ----- values of keys ---------------------------------------------------

/// The count of a collection: that of its last row, none without rows.
pub open spec fn count_of(own: Seq<CollectionCountView>) -> Option<i64> {
    if own.len() == 0 {
        None
    } else {
        Some(own.last().count)
    }
}

/// The floor price of a collection: the lowest of the floor prices that
/// its rows hold, none where no row holds one.
pub open spec fn lowest_floor(own: Seq<FloorPriceRowView>) -> Option<i64>
    decreases own.len(),
{
    if own.len() == 0 {
        None
    } else {
        match (lowest_floor(own.drop_last()), own.last().floor_price) {
            (Some(a), Some(b)) => Some(if b < a { b } else { a }),
            (Some(a), None) => Some(a),
            (None, b) => b,
        }
    }
}

/// The owners that the rows of a collection name, in row order.
pub open spec fn owners_of(own: Seq<CollectionOwnerView>) -> Seq<Seq<char>> {
    own.map_values(|o: CollectionOwnerView| o.owner)
}

/// The number of holders of a collection: the number of distinct owners
/// that its rows name, none without rows.
pub open spec fn holders_of(own: Seq<CollectionOwnerView>) -> Option<nat> {
    if own.len() == 0 {
        None
    } else {
        Some(owners_of(own).to_set().len())
    }
}

/// The collection that answers an identifier: the last of its rows, none
/// without rows.
pub open spec fn collection_of(own: Seq<NftView>) -> Option<NftView> {
    if own.len() == 0 {
        None
    } else {
        Some(own.last())
    }
}

/// The rows of the collections query: the token records first, then one
/// record for each collection of the third-party feed.
pub open spec fn collection_rows(tokens: Seq<NftView>, feed: Seq<FeedCollectionView>) -> Seq<NftView> {
    tokens + feed.map_values(|c: FeedCollectionView| feed_collection_nft(c))
}

/// The lowest floor price is one of the floor prices and none is lower;
/// it is missing exactly where every row lacks one.
pub proof fn lemma_lowest_floor(own: Seq<FloorPriceRowView>)
    ensures
        match lowest_floor(own) {
            Some(low) => (exists|i: int| 0 <= i < own.len() && own[i].floor_price == Some(low)) && (
            forall|i: int|
                0 <= i < own.len() ==> ((#[trigger] own[i]).floor_price matches Some(f) ==> low <= f)),
            None => forall|i: int| 0 <= i < own.len() ==> (#[trigger] own[i]).floor_price is None,
        },
    decreases own.len(),
{
    if own.len() > 0 {
        let front = own.drop_last();
        lemma_lowest_floor(front);
        match lowest_floor(front) {
            Some(a) => {
                let i = choose|i: int| 0 <= i < front.len() && front[i].floor_price == Some(a);
                assert(own[i].floor_price == Some(a));
                assert(own[own.len() - 1] == own.last());
                assert forall|i: int| 0 <= i < own.len() implies ((
                #[trigger] own[i]).floor_price matches Some(f) ==> lowest_floor(own)->0 <= f) by {
                    if i < front.len() {
                        assert(front[i] == own[i]);
                    }
                }
            },
            None => {
                assert(own[own.len() - 1] == own.last());
                assert forall|i: int| 0 <= i < own.len() && lowest_floor(own) is None implies (
                #[trigger] own[i]).floor_price is None by {
                    if i < front.len() {
                        assert(front[i] == own[i]);
                    }
                }
                if lowest_floor(own) is Some {
                    assert forall|i: int| 0 <= i < own.len() implies ((
                    #[trigger] own[i]).floor_price matches Some(f) ==> lowest_floor(own)->0 <= f) by {
                        if i < front.len() {
                            assert(front[i] == own[i]);
                        }
                    }
                }
            },
        }
    }
}

// ----- the loaders ------------------------------------------------------

/// What one query for the collections returned: the token records, and
/// the collections of the third-party feed.
#[derive(Debug)]
pub struct CollectionRows {
    pub tokens: Vec<Nft>,
    pub feed: Vec<FeedCollection>,
}

/// The most sample tokens that a preview shows of one creator.
pub const PREVIEW_LIMIT: usize = 3;

/// The value for a key of the preview batch: the tokens of its first
/// three sample rows, in row order, or of all where there are fewer.
pub open spec fn preview_answer(own: Seq<SampleNftView>) -> Seq<NftView> {
    let shown = if own.len() <= PREVIEW_LIMIT {
        own
    } else {
        own.take(PREVIEW_LIMIT as int)
    };
    shown.map_values(|s: SampleNftView| sample_nft(s))
}

/// The value for a key of the count batch.
pub open spec fn count_answer(own: Seq<CollectionCountView>) -> Option<CollectionNftCount> {
    match count_of(own) {
        Some(c) => Some(CollectionNftCount(c)),
        None => None,
    }
}

/// The value for a key of the floor price batch.
pub open spec fn floor_answer(own: Seq<FloorPriceRowView>) -> Option<CollectionFloorPrice> {
    match lowest_floor(own) {
        Some(f) => Some(CollectionFloorPrice(f)),
        None => None,
    }
}

/// The value for a key of the holders batch; a number of holders that
/// does not fit the signed type fails the key.
pub open spec fn holders_answer(own: Seq<CollectionOwnerView>) -> Result<
    Option<CollectionHoldersCount>,
    Error,
> {
    match holders_of(own) {
        Some(n) => if n <= i64::MAX {
            Ok(Some(CollectionHoldersCount(n as i64)))
        } else {
            Err(Error::Bounds)
        },
        None => Ok(None),
    }
}

fn nft_from_sample(s: &SampleNft) -> (n: Nft)
    ensures
        n@ == sample_nft(s@),
{
    Nft {
        address: s.address.clone(),
        name: s.name.clone(),
        seller_fee_basis_points: s.seller_fee_basis_points,
        mint_address: s.mint_address.clone(),
        token_account_address: s.token_account_address.clone(),
        primary_sale_happened: s.primary_sale_happened,
        update_authority_address: s.update_authority_address.clone(),
        uri: s.uri.clone(),
        description: copy_opt(&s.description),
        image: copy_opt(&s.image),
        animation_url: copy_opt(&s.animation_url),
        external_url: copy_opt(&s.external_url),
        category: copy_opt(&s.category),
        model: copy_opt(&s.model),
        slot: None,
    }
}

/// The token record that stands for a collection of the third-party
/// feed, with the neutral value in every column the feed does not fill.
pub fn nft_from_feed_collection(c: &FeedCollection) -> (n: Nft)
    ensures
        n@ == feed_collection_nft(c@),
{
    Nft {
        address: c.id.clone(),
        name: match &c.name {
            Some(name) => name.clone(),
            None => String::new(),
        },
        seller_fee_basis_points: 0,
        mint_address: c.id.clone(),
        token_account_address: String::new(),
        primary_sale_happened: false,
        update_authority_address: String::new(),
        uri: String::new(),
        description: Some(String::new()),
        image: Some(c.image.clone()),
        animation_url: Some(String::new()),
        external_url: Some(String::new()),
        category: Some(String::new()),
        model: Some(String::new()),
        slot: Some(0),
    }
}

/// The batcher of the collection reads.
#[derive(Debug, Clone, Copy)]
pub struct Batcher;

impl Batcher {
    /// Answers a batch of creators with the first three sample tokens
    /// that the preview query returned for each, in row order; a creator
    /// without rows gets the empty list.
    pub fn load_previews(rows: &Result<Vec<SampleNft>, Error>, addresses: &[String]) -> (out:
        BatchMap<Vec<Nft>>)
        ensures
            out.answers(texts(addresses@)),
            forall|j: int|
                0 <= j < out.values.len() ==> match *rows {
                    Ok(rs) => ((#[trigger] out.values[j]) matches Ok(list) && views(list@)
                        == preview_answer(rows_of(views(rs@), sample_key(), out.keys[j]@))),
                    Err(e) => out.values[j] == Err::<Vec<Nft>, Error>(e),
                },
    {
        let rs = match rows {
            Ok(rs) => rs,
            Err(e) => {
                return BatchMap::failed(addresses, *e);
            },
        };
        let mut row_keys: Vec<String> = Vec::new();
        let mut i: usize = 0;
        while i < rs.len()
            invariant
                i <= rs.len(),
                row_keys.len() == i,
                forall|n: int| 0 <= n < i ==> row_keys[n]@ == rs[n]@.creator_address,
            decreases rs.len() - i,
        {
            row_keys.push(rs[i].creator_address.clone());
            i += 1;
        }
        assert(texts(row_keys@) =~= views(rs@).map_values(sample_key()));
        let Groups { keys, positions } = group_rows(&row_keys, addresses);
        let mut values: Vec<Result<Vec<Nft>, Error>> = Vec::new();
        let mut j: usize = 0;
        while j < keys.len()
            invariant
                j <= keys.len(),
                values.len() == j,
                (Groups { keys, positions }).groups(
                    views(rs@).map_values(sample_key()),
                    texts(addresses@),
                ),
                forall|n: int|
                    0 <= n < j ==> ((#[trigger] values[n]) matches Ok(list) && views(list@)
                        == preview_answer(rows_of(views(rs@), sample_key(), keys[n]@))),
            decreases keys.len() - j,
        {
            let ps = &positions[j];
            let ghost own = rows_of(views(rs@), sample_key(), keys[j as int]@);
            let shown = if ps.len() <= PREVIEW_LIMIT {
                ps.len()
            } else {
                PREVIEW_LIMIT
            };
            let mut list: Vec<Nft> = Vec::new();
            let mut m: usize = 0;
            while m < shown
                invariant
                    m <= shown <= ps.len(),
                    list.len() == m,
                    own.len() == ps.len(),
                    forall|n: int| 0 <= n < ps.len() ==> (#[trigger] ps[n]) < rs.len(),
                    forall|n: int| 0 <= n < ps.len() ==> #[trigger] own[n] == rs[ps[n] as int]@,
                    forall|n: int| 0 <= n < m ==> list[n]@ == sample_nft(own[n]),
                decreases shown - m,
            {
                list.push(nft_from_sample(&rs[ps[m]]));
                m += 1;
            }
            assert(views(list@) =~= preview_answer(own));
            values.push(Ok(list));
            j += 1;
        }
        BatchMap { keys, values }
    }

    /// Answers a batch of collections with the token count of each; a
    /// collection without rows gets none.
    pub fn load_nft_counts(rows: &Result<Vec<CollectionCount>, Error>, addresses: &[String]) -> (out:
        BatchMap<Option<CollectionNftCount>>)
        ensures
            out.answers(texts(addresses@)),
            forall|j: int|
                0 <= j < out.values.len() ==> #[trigger] out.values[j] == match *rows {
                    Ok(rs) => Ok::<Option<CollectionNftCount>, Error>(
                        count_answer(rows_of(views(rs@), count_key(), out.keys[j]@)),
                    ),
                    Err(e) => Err::<Option<CollectionNftCount>, Error>(e),
                },
    {
        let rs = match rows {
            Ok(rs) => rs,
            Err(e) => {
                return BatchMap::failed(addresses, *e);
            },
        };
        let mut row_keys: Vec<String> = Vec::new();
        let mut i: usize = 0;
        while i < rs.len()
            invariant
                i <= rs.len(),
                row_keys.len() == i,
                forall|n: int| 0 <= n < i ==> row_keys[n]@ == rs[n]@.collection,
            decreases rs.len() - i,
        {
            row_keys.push(rs[i].collection.clone());
            i += 1;
        }
        assert(texts(row_keys@) =~= views(rs@).map_values(count_key()));
        let Groups { keys, positions } = group_rows(&row_keys, addresses);
        let mut values: Vec<Result<Option<CollectionNftCount>, Error>> = Vec::new();
        let mut j: usize = 0;
        while j < keys.len()
            invariant
                j <= keys.len(),
                values.len() == j,
                (Groups { keys, positions }).groups(
                    views(rs@).map_values(count_key()),
                    texts(addresses@),
                ),
                forall|n: int|
                    0 <= n < j ==> #[trigger] values[n] == Ok::<Option<CollectionNftCount>, Error>(
                        count_answer(rows_of(views(rs@), count_key(), keys[n]@)),
                    ),
            decreases keys.len() - j,
        {
            let ps = &positions[j];
            let ghost own = rows_of(views(rs@), count_key(), keys[j as int]@);
            assert(own.len() == ps.len());
            let value = if ps.len() == 0 {
                None
            } else {
                let at = ps[ps.len() - 1];
                assert(own.last() == rs[at as int]@);
                Some(CollectionNftCount::from(rs[at].count))
            };
            values.push(Ok(value));
            j += 1;
        }
        BatchMap { keys, values }
    }

    /// Answers a batch of collections with the number of distinct wallets
    /// that hold a token of each; a collection without rows gets none.
    pub fn load_holders_counts(rows: &Result<Vec<CollectionOwner>, Error>, addresses: &[String]) -> (out:
        BatchMap<Option<CollectionHoldersCount>>)
        ensures
            out.answers(texts(addresses@)),
            forall|j: int|
                0 <= j < out.values.len() ==> #[trigger] out.values[j] == match *rows {
                    Ok(rs) => holders_answer(rows_of(views(rs@), owner_key(), out.keys[j]@)),
                    Err(e) => Err::<Option<CollectionHoldersCount>, Error>(e),
                },
    {
        let rs = match rows {
            Ok(rs) => rs,
            Err(e) => {
                return BatchMap::failed(addresses, *e);
            },
        };
        let mut row_keys: Vec<String> = Vec::new();
        let mut i: usize = 0;
        while i < rs.len()
            invariant
                i <= rs.len(),
                row_keys.len() == i,
                forall|n: int| 0 <= n < i ==> row_keys[n]@ == rs[n]@.collection,
            decreases rs.len() - i,
        {
            row_keys.push(rs[i].collection.clone());
            i += 1;
        }
        assert(texts(row_keys@) =~= views(rs@).map_values(owner_key()));
        let Groups { keys, positions } = group_rows(&row_keys, addresses);
        let mut values: Vec<Result<Option<CollectionHoldersCount>, Error>> = Vec::new();
        let mut j: usize = 0;
        while j < keys.len()
            invariant
                j <= keys.len(),
                values.len() == j,
                (Groups { keys, positions }).groups(
                    views(rs@).map_values(owner_key()),
                    texts(addresses@),
                ),
                forall|n: int|
                    0 <= n < j ==> #[trigger] values[n] == holders_answer(
                        rows_of(views(rs@), owner_key(), keys[n]@),
                    ),
            decreases keys.len() - j,
        {
            let ps = &positions[j];
            let ghost own = rows_of(views(rs@), owner_key(), keys[j as int]@);
            assert(own.len() == ps.len());
            let value = if ps.len() == 0 {
                Ok(None)
            } else {
                let mut owners: Vec<String> = Vec::new();
                let mut m: usize = 0;
                while m < ps.len()
                    invariant
                        m <= ps.len(),
                        owners.len() == m,
                        own.len() == ps.len(),
                        forall|n: int| 0 <= n < ps.len() ==> (#[trigger] ps[n]) < rs.len(),
                        forall|n: int| 0 <= n < ps.len() ==> #[trigger] own[n] == rs[ps[n] as int]@,
                        forall|n: int| 0 <= n < m ==> owners[n]@ == own[n].owner,
                    decreases ps.len() - m,
                {
                    owners.push(rs[ps[m]].owner.clone());
                    m += 1;
                }
                assert(texts(owners@) =~= owners_of(own));
                let holders = distinct_keys(owners.as_slice());
                proof {
                    lemma_first_occurrences(owners_of(own));
                    first_occurrences(owners_of(own)).unique_seq_to_set();
                }
                let count: u64 = holders.len() as u64;
                if count > 0x7fff_ffff_ffff_ffff {
                    Err(Error::Bounds)
                } else {
                    Ok(Some(CollectionHoldersCount::from(count as i64)))
                }
            };
            values.push(value);
            j += 1;
        }
        BatchMap { keys, values }
    }

    /// Answers a batch of collections with the lowest floor price that
    /// the rows of each hold; a collection whose rows hold none gets none.
    pub fn load_floor_prices(rows: &Result<Vec<FloorPriceRow>, Error>, addresses: &[String]) -> (out:
        BatchMap<Option<CollectionFloorPrice>>)
        ensures
            out.answers(texts(addresses@)),
            forall|j: int|
                0 <= j < out.values.len() ==> #[trigger] out.values[j] == match *rows {
                    Ok(rs) => Ok::<Option<CollectionFloorPrice>, Error>(
                        floor_answer(rows_of(views(rs@), floor_key(), out.keys[j]@)),
                    ),
                    Err(e) => Err::<Option<CollectionFloorPrice>, Error>(e),
                },
    {
        let rs = match rows {
            Ok(rs) => rs,
            Err(e) => {
                return BatchMap::failed(addresses, *e);
            },
        };
        let mut row_keys: Vec<String> = Vec::new();
        let mut i: usize = 0;
        while i < rs.len()
            invariant
                i <= rs.len(),
                row_keys.len() == i,
                forall|n: int| 0 <= n < i ==> row_keys[n]@ == rs[n]@.collection,
            decreases rs.len() - i,
        {
            row_keys.push(rs[i].collection.clone());
            i += 1;
        }
        assert(texts(row_keys@) =~= views(rs@).map_values(floor_key()));
        let Groups { keys, positions } = group_rows(&row_keys, addresses);
        let mut values: Vec<Result<Option<CollectionFloorPrice>, Error>> = Vec::new();
        let mut j: usize = 0;
        while j < keys.len()
            invariant
                j <= keys.len(),
                values.len() == j,
                (Groups { keys, positions }).groups(
                    views(rs@).map_values(floor_key()),
                    texts(addresses@),
                ),
                forall|n: int|
                    0 <= n < j ==> #[trigger] values[n] == Ok::<Option<CollectionFloorPrice>, Error>(
                        floor_answer(rows_of(views(rs@), floor_key(), keys[n]@)),
                    ),
            decreases keys.len() - j,
        {
            let ps = &positions[j];
            let ghost own = rows_of(views(rs@), floor_key(), keys[j as int]@);
            assert(own.len() == ps.len());
            let mut low: Option<i64> = None;
            let mut m: usize = 0;
            assert(own.take(0) =~= Seq::empty());
            while m < ps.len()
                invariant
                    m <= ps.len(),
                    own.len() == ps.len(),
                    forall|n: int| 0 <= n < ps.len() ==> (#[trigger] ps[n]) < rs.len(),
                    forall|n: int| 0 <= n < ps.len() ==> #[trigger] own[n] == rs[ps[n] as int]@,
                    low == lowest_floor(own.take(m as int)),
                decreases ps.len() - m,
            {
                assert(own.take(m + 1).drop_last() =~= own.take(m as int));
                let here = rs[ps[m]].floor_price;
                low = match (low, here) {
                    (Some(a), Some(b)) => Some(if b < a { b } else { a }),
                    (Some(a), None) => Some(a),
                    (None, b) => b,
                };
                m += 1;
            }
            assert(own.take(ps.len() as int) =~= own);
            let value = match low {
                Some(f) => Some(CollectionFloorPrice::from(f)),
                None => None,
            };
            values.push(Ok(value));
            j += 1;
        }
        BatchMap { keys, values }
    }

    /// Answers a batch of identifiers with the collection of each: the
    /// token record whose mint is the identifier, or the record that
    /// stands for the third-party collection with that identifier; an
    /// identifier without either gets none.
    pub fn load_collections(rows: &Result<CollectionRows, Error>, identifiers: &[String]) -> (out:
        BatchMap<Option<Collection>>)
        ensures
            out.answers(texts(identifiers@)),
            forall|j: int|
                0 <= j < out.values.len() ==> match *rows {
                    Ok(rs) => match collection_of(
                        rows_of(
                            collection_rows(views(rs.tokens@), views(rs.feed@)),
                            mint_key(),
                            out.keys[j]@,
                        ),
                    ) {
                        Some(n) => ((#[trigger] out.values[j]) matches Ok(Some(c)) && c.0@ == n),
                        None => out.values[j] matches Ok(None),
                    },
                    Err(e) => out.values[j] == Err::<Option<Collection>, Error>(e),
                },
    {
        let rs = match rows {
            Ok(rs) => rs,
            Err(e) => {
                return BatchMap::failed(identifiers, *e);
            },
        };
        let ghost all = collection_rows(views(rs.tokens@), views(rs.feed@));
        let mut records: Vec<Nft> = Vec::new();
        let mut i: usize = 0;
        while i < rs.tokens.len()
            invariant
                i <= rs.tokens.len(),
                records.len() == i,
                forall|n: int| 0 <= n < i ==> records[n]@ == rs.tokens[n]@,
            decreases rs.tokens.len() - i,
        {
            records.push(rs.tokens[i].clone());
            i += 1;
        }
        let mut f: usize = 0;
        while f < rs.feed.len()
            invariant
                f <= rs.feed.len(),
                records.len() == rs.tokens.len() + f,
                forall|n: int| 0 <= n < rs.tokens.len() ==> records[n]@ == rs.tokens[n]@,
                forall|n: int|
                    0 <= n < f ==> records[rs.tokens.len() + n]@ == feed_collection_nft(rs.feed[n]@),
            decreases rs.feed.len() - f,
        {
            records.push(nft_from_feed_collection(&rs.feed[f]));
            f += 1;
        }
        assert(views(records@) =~= all);
        let mut row_keys: Vec<String> = Vec::new();
        let mut i: usize = 0;
        while i < records.len()
            invariant
                i <= records.len(),
                row_keys.len() == i,
                forall|n: int| 0 <= n < i ==> row_keys[n]@ == records[n]@.mint_address,
            decreases records.len() - i,
        {
            row_keys.push(records[i].mint_address.clone());
            i += 1;
        }
        assert(texts(row_keys@) =~= views(records@).map_values(mint_key()));
        let Groups { keys, positions } = group_rows(&row_keys, identifiers);
        let mut values: Vec<Result<Option<Collection>, Error>> = Vec::new();
        let mut j: usize = 0;
        while j < keys.len()
            invariant
                j <= keys.len(),
                values.len() == j,
                views(records@) == all,
                (Groups { keys, positions }).groups(all.map_values(mint_key()), texts(identifiers@)),
                forall|n: int|
                    0 <= n < j ==> match collection_of(rows_of(all, mint_key(), keys[n]@)) {
                        Some(rec) => ((#[trigger] values[n]) matches Ok(Some(c)) && c.0@ == rec),
                        None => values[n] matches Ok(None),
                    },
            decreases keys.len() - j,
        {
            let ps = &positions[j];
            let ghost own = rows_of(all, mint_key(), keys[j as int]@);
            assert(own.len() == ps.len());
            let value = if ps.len() == 0 {
                None
            } else {
                let at = ps[ps.len() - 1];
                assert(own.last() == records[at as int]@);
                Some(Collection(records[at].clone()))
            };
            values.push(Ok(value));
            j += 1;
        }
        BatchMap { keys, values }
    }
}

/// The keys of a batch are the requested keys: every requested key is
/// answered, no other key is, and none is answered twice.
pub proof fn lemma_batch_keys<V>(out: BatchMap<V>, keys: Seq<Seq<char>>)
    requires
        out.answers(keys),
    ensures
        texts(out.keys@).to_set() == keys.to_set(),
        texts(out.keys@).no_duplicates(),
        out.values.len() == texts(out.keys@).len(),
{
    lemma_first_occurrences(keys);
}

} // verus!
