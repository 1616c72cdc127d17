use marketplace_indexer::batch::{distinct_keys, group_rows, slot_of};
use marketplace_indexer::collection::{
    nft_from_feed_collection, Batcher, CollectionCount, CollectionFloorPrice,
    CollectionHoldersCount, CollectionNftCount, CollectionOwner, CollectionRows, FeedCollection,
    FloorPriceRow, Nft, SampleNft,
};
use marketplace_indexer::error::Error;

fn keys(list: &[&str]) -> Vec<String> {
    list.iter().map(|s| s.to_string()).collect()
}

fn count(collection: &str, count: i64) -> CollectionCount {
    CollectionCount { collection: collection.to_string(), count }
}

#[test]
fn batched_nft_count_read() {
    let rows = Ok(vec![count("C1", 5), count("C2", 7)]);
    let out = Batcher::load_nft_counts(&rows, &keys(&["C1", "C2", "C3"]));
    assert_eq!(out.keys, keys(&["C1", "C2", "C3"]));
    assert_eq!(
        out.values,
        vec![Ok(Some(CollectionNftCount(5))), Ok(Some(CollectionNftCount(7))), Ok(None)]
    );
    assert_eq!(out.get(&"C2".to_string()), Some(&Ok(Some(CollectionNftCount(7)))));
    assert_eq!(out.get(&"C3".to_string()), Some(&Ok(None)));
    assert_eq!(out.get(&"C4".to_string()), None);
}

#[test]
fn batch_answers_each_requested_key_once() {
    let rows = Ok(vec![count("b", 1), count("zzz", 9), count("a", 2)]);
    let out = Batcher::load_nft_counts(&rows, &keys(&["b", "a", "b", "c", "a"]));
    assert_eq!(out.keys, keys(&["b", "a", "c"]));
    assert_eq!(
        out.values,
        vec![Ok(Some(CollectionNftCount(1))), Ok(Some(CollectionNftCount(2))), Ok(None)]
    );
}

#[test]
fn batch_equals_per_key_loads() {
    let all = vec![count("a", 1), count("b", 2), count("a", 3), count("c", 4)];
    let requested = keys(&["c", "a", "d", "b"]);
    let batch = Batcher::load_nft_counts(&Ok(clone_rows(&all)), &requested);
    for k in &requested {
        let own: Vec<CollectionCount> =
            all.iter().filter(|r| &r.collection == k).map(|r| count(&r.collection, r.count)).collect();
        let single = Batcher::load_nft_counts(&Ok(own), std::slice::from_ref(k));
        assert_eq!(single.keys, vec![k.clone()]);
        assert_eq!(batch.get(k), Some(&single.values[0]));
    }
}

fn clone_rows(rows: &[CollectionCount]) -> Vec<CollectionCount> {
    rows.iter().map(|r| count(&r.collection, r.count)).collect()
}

#[test]
fn last_row_of_a_key_gives_the_count() {
    let rows = Ok(vec![count("a", 1), count("a", 3)]);
    let out = Batcher::load_nft_counts(&rows, &keys(&["a"]));
    assert_eq!(out.values, vec![Ok(Some(CollectionNftCount(3)))]);
}

#[test]
fn storage_error_fails_every_key() {
    let rows: Result<Vec<CollectionCount>, Error> = Err(Error::Storage);
    let out = Batcher::load_nft_counts(&rows, &keys(&["a", "b", "a"]));
    assert_eq!(out.keys, keys(&["a", "b"]));
    assert_eq!(out.values, vec![Err(Error::Storage), Err(Error::Storage)]);
    let rows: Result<Vec<FloorPriceRow>, Error> = Err(Error::Storage);
    let out = Batcher::load_floor_prices(&rows, &keys(&["a"]));
    assert_eq!(out.values, vec![Err(Error::Storage)]);
    let rows: Result<Vec<CollectionOwner>, Error> = Err(Error::Storage);
    let out = Batcher::load_holders_counts(&rows, &keys(&["a"]));
    assert_eq!(out.values, vec![Err(Error::Storage)]);
    let rows: Result<Vec<SampleNft>, Error> = Err(Error::Storage);
    let out = Batcher::load_previews(&rows, &keys(&["a"]));
    assert!(matches!(out.values[0], Err(Error::Storage)));
    let rows: Result<CollectionRows, Error> = Err(Error::Storage);
    let out = Batcher::load_collections(&rows, &keys(&["a"]));
    assert!(matches!(out.values[0], Err(Error::Storage)));
}

#[test]
fn empty_request_gives_an_empty_batch() {
    let out = Batcher::load_nft_counts(&Ok(vec![count("a", 1)]), &[]);
    assert_eq!(out.keys.len(), 0);
    assert_eq!(out.values.len(), 0);
}

fn floor(collection: &str, floor_price: Option<i64>) -> FloorPriceRow {
    FloorPriceRow { collection: collection.to_string(), floor_price }
}

#[test]
fn floor_price_is_the_lowest_and_skips_null() {
    let rows = Ok(vec![
        floor("a", Some(30)),
        floor("b", None),
        floor("a", None),
        floor("a", Some(20)),
        floor("c", Some(-1)),
        floor("a", Some(25)),
    ]);
    let out = Batcher::load_floor_prices(&rows, &keys(&["a", "b", "c", "d"]));
    assert_eq!(
        out.values,
        vec![
            Ok(Some(CollectionFloorPrice(20))),
            Ok(None),
            Ok(Some(CollectionFloorPrice(-1))),
            Ok(None)
        ]
    );
}

fn owner(collection: &str, owner: &str) -> CollectionOwner {
    CollectionOwner { collection: collection.to_string(), owner: owner.to_string() }
}

#[test]
fn holders_are_counted_per_collection_and_once_each() {
    let rows = Ok(vec![
        owner("a", "w1"),
        owner("a", "w2"),
        owner("b", "w1"),
        owner("a", "w1"),
        owner("a", "w3"),
        owner("b", "w1"),
    ]);
    let out = Batcher::load_holders_counts(&rows, &keys(&["a", "b", "c"]));
    assert_eq!(
        out.values,
        vec![
            Ok(Some(CollectionHoldersCount(3))),
            Ok(Some(CollectionHoldersCount(1))),
            Ok(None)
        ]
    );
}

fn sample(creator: &str, address: &str) -> SampleNft {
    SampleNft {
        creator_address: creator.to_string(),
        address: address.to_string(),
        name: format!("name of {}", address),
        seller_fee_basis_points: 250,
        mint_address: format!("mint of {}", address),
        token_account_address: "account".to_string(),
        primary_sale_happened: true,
        update_authority_address: "authority".to_string(),
        uri: "uri".to_string(),
        description: Some("description".to_string()),
        image: None,
        animation_url: None,
        external_url: Some("external".to_string()),
        category: None,
        model: None,
    }
}

#[test]
fn previews_hold_up_to_three_samples_in_row_order() {
    let rows = Ok(vec![
        sample("x", "1"),
        sample("y", "2"),
        sample("x", "3"),
        sample("x", "4"),
        sample("x", "5"),
    ]);
    let out = Batcher::load_previews(&rows, &keys(&["x", "y", "z"]));
    assert_eq!(out.keys, keys(&["x", "y", "z"]));
    let names = |i: usize| -> Vec<String> {
        out.values[i].as_ref().unwrap().iter().map(|n| n.address.clone()).collect()
    };
    assert_eq!(names(0), keys(&["1", "3", "4"]));
    assert_eq!(names(1), keys(&["2"]));
    assert_eq!(names(2), Vec::<String>::new());
    let first = &out.values[0].as_ref().unwrap()[0];
    assert_eq!(first.name, "name of 1");
    assert_eq!(first.mint_address, "mint of 1");
    assert_eq!(first.seller_fee_basis_points, 250);
    assert_eq!(first.description, Some("description".to_string()));
    assert_eq!(first.image, None);
    assert_eq!(first.external_url, Some("external".to_string()));
    assert_eq!(first.slot, None);
    assert!(first.primary_sale_happened);
}

fn token(mint: &str, name: &str) -> Nft {
    Nft {
        address: format!("address of {}", mint),
        name: name.to_string(),
        seller_fee_basis_points: 100,
        mint_address: mint.to_string(),
        token_account_address: "account".to_string(),
        primary_sale_happened: false,
        update_authority_address: "authority".to_string(),
        uri: "uri".to_string(),
        description: None,
        image: Some("image".to_string()),
        animation_url: None,
        external_url: None,
        category: None,
        model: None,
        slot: Some(12),
    }
}

#[test]
fn collections_come_from_tokens_or_from_the_feed() {
    let rows = Ok(CollectionRows {
        tokens: vec![token("m1", "on chain")],
        feed: vec![
            FeedCollection { id: "17".to_string(), name: None, image: "picture".to_string() },
            FeedCollection {
                id: "18".to_string(),
                name: Some("named".to_string()),
                image: "other".to_string(),
            },
        ],
    });
    let out = Batcher::load_collections(&rows, &keys(&["17", "m1", "none", "18"]));
    assert_eq!(out.keys, keys(&["17", "m1", "none", "18"]));
    let fed = &out.values[0].as_ref().unwrap().as_ref().unwrap().0;
    assert_eq!(fed.address, "17");
    assert_eq!(fed.mint_address, "17");
    assert_eq!(fed.name, "");
    assert_eq!(fed.seller_fee_basis_points, 0);
    assert_eq!(fed.update_authority_address, "");
    assert!(!fed.primary_sale_happened);
    assert_eq!(fed.uri, "");
    assert_eq!(fed.slot, Some(0));
    assert_eq!(fed.description, Some(String::new()));
    assert_eq!(fed.image, Some("picture".to_string()));
    assert_eq!(fed.token_account_address, "");
    let chain = &out.values[1].as_ref().unwrap().as_ref().unwrap().0;
    assert_eq!(chain.name, "on chain");
    assert_eq!(chain.slot, Some(12));
    assert!(out.values[2].as_ref().unwrap().is_none());
    assert_eq!(out.values[3].as_ref().unwrap().as_ref().unwrap().0.name, "named");
}

#[test]
fn feed_collection_has_neutral_defaults() {
    let n = nft_from_feed_collection(&FeedCollection {
        id: "5".to_string(),
        name: Some("five".to_string()),
        image: "img".to_string(),
    });
    assert_eq!(n.name, "five");
    assert_eq!(n.animation_url, Some(String::new()));
    assert_eq!(n.external_url, Some(String::new()));
    assert_eq!(n.category, Some(String::new()));
    assert_eq!(n.model, Some(String::new()));
}

#[test]
fn counts_convert_from_integers() {
    assert_eq!(CollectionNftCount::from(5), CollectionNftCount(5));
    assert_eq!(CollectionFloorPrice::from(-3), CollectionFloorPrice(-3));
    assert_eq!(CollectionHoldersCount::from(0), CollectionHoldersCount(0));
}

#[test]
fn keys_lose_their_repetitions() {
    assert_eq!(distinct_keys(&keys(&["b", "a", "b", "b", "c", "a"])), keys(&["b", "a", "c"]));
    assert_eq!(distinct_keys(&[]), Vec::<String>::new());
    assert_eq!(slot_of(&keys(&["b", "a", "b"]), &"b".to_string()), Some(0));
    assert_eq!(slot_of(&keys(&["b", "a", "b"]), &"z".to_string()), None);
}

#[test]
fn rows_go_to_the_keys_they_carry() {
    let g = group_rows(&keys(&["a", "b", "a", "x", "b", "a"]), &keys(&["b", "a", "c", "b"]));
    assert_eq!(g.keys, keys(&["b", "a", "c"]));
    assert_eq!(g.positions, vec![vec![1, 4], vec![0, 2, 5], vec![]]);
}
