use marketplace_indexer::collection::Nft;
use marketplace_indexer::error::Error;
use marketplace_indexer::query_root::{
    order_by_name_descending, Attribute, AttributeFilter, Marketplace, NftOrder, NftQuery,
    NftSelector, ProfilePictureResponse, ProfileShowResponse, QueryRoot, Storefront,
};

fn strings(list: &[&str]) -> Vec<String> {
    list.iter().map(|s| s.to_string()).collect()
}

fn filter(trait_type: &str, values: &[&str]) -> AttributeFilter {
    AttributeFilter { trait_type: trait_type.to_string(), values: strings(values) }
}

fn attribute(trait_type: &str, value: &str) -> Attribute {
    Attribute {
        metadata_address: "m".to_string(),
        trait_type: trait_type.to_string(),
        value: value.to_string(),
    }
}

#[test]
fn nfts_without_a_selector_is_an_argument_error() {
    let e = QueryRoot.nfts(None, None, None).unwrap_err();
    assert_eq!(e.kind, Error::Argument);
    assert_eq!(e.message, "No filter provided! Please provide at least one of the filters");
    assert_eq!(e.extension_key, "Filters");
    assert_eq!(e.extension_value, "owners: Vec<String>, creators: Vec<String>");
}

#[test]
fn nfts_with_both_selectors_is_an_argument_error() {
    let e = QueryRoot
        .nfts(Some(strings(&["o"])), Some(strings(&["c"])), Some(vec![filter("t", &["v"])]))
        .unwrap_err();
    assert_eq!(e.kind, Error::Argument);
    assert_eq!(e.message, "Please pass either owners or creators, not both");
    assert_eq!(e.extension_key, "Filters");
    assert_eq!(e.extension_value, "owners: Vec<String>, creators: Vec<String>");
}

#[test]
fn nfts_by_owners() {
    let q = QueryRoot.nfts(Some(strings(&["o1", "o2"])), None, None).unwrap();
    match &q.selector {
        NftSelector::Owners(list) => assert_eq!(list, &strings(&["o1", "o2"])),
        NftSelector::Creators(_) => panic!("selected by creators"),
    }
    assert_eq!(q.attributes.len(), 0);
    assert_eq!(q.order, NftOrder::NameDescending);
}

#[test]
fn nfts_by_creators_with_filters() {
    let q = QueryRoot
        .nfts(None, Some(strings(&["c1"])), Some(vec![filter("hat", &["red", "blue"]), filter("eyes", &["green"])]))
        .unwrap();
    match &q.selector {
        NftSelector::Creators(list) => assert_eq!(list, &strings(&["c1"])),
        NftSelector::Owners(_) => panic!("selected by owners"),
    }
    assert_eq!(q.attributes.len(), 2);
    assert_eq!(q.attributes[0].trait_type, "hat");
    assert_eq!(q.attributes[0].values, strings(&["red", "blue"]));
    assert_eq!(q.attributes[1].trait_type, "eyes");
    assert_eq!(q.order, NftOrder::NameDescending);
}

#[test]
fn filters_compose_as_a_conjunction() {
    let q = NftQuery {
        selector: NftSelector::Owners(strings(&["o"])),
        attributes: vec![filter("hat", &["red", "blue"]), filter("eyes", &["green"])],
        order: NftOrder::NameDescending,
    };
    assert!(q.admits(&vec![attribute("eyes", "green"), attribute("hat", "blue")]));
    assert!(!q.admits(&vec![attribute("hat", "blue")]));
    assert!(!q.admits(&vec![attribute("hat", "green"), attribute("eyes", "green")]));
    assert!(!q.admits(&vec![attribute("eyes", "blue"), attribute("hat", "green")]));
    assert!(!q.admits(&vec![]));
    let open = NftQuery {
        selector: NftSelector::Owners(strings(&["o"])),
        attributes: vec![],
        order: NftOrder::NameDescending,
    };
    assert!(open.admits(&vec![]));
    assert!(filter("hat", &["red"]).admits(&vec![attribute("x", "y"), attribute("hat", "red")]));
    assert!(!filter("hat", &[]).admits(&vec![attribute("hat", "red")]));
}

#[test]
fn creator_and_wallet_carry_their_address() {
    assert_eq!(QueryRoot.creator("abc".to_string()).address, "abc");
    assert_eq!(QueryRoot.wallet("def".to_string()).unwrap().address, "def");
}

fn nft(address: &str) -> Nft {
    Nft {
        address: address.to_string(),
        name: "n".to_string(),
        seller_fee_basis_points: 1,
        mint_address: "mint".to_string(),
        token_account_address: String::new(),
        primary_sale_happened: false,
        update_authority_address: String::new(),
        uri: String::new(),
        description: None,
        image: None,
        animation_url: None,
        external_url: None,
        category: None,
        model: None,
        slot: None,
    }
}

#[test]
fn single_row_reads() {
    assert!(QueryRoot.nft(vec![]).is_none());
    assert_eq!(QueryRoot.nft(vec![nft("a")]).unwrap().address, "a");
    assert_eq!(QueryRoot.nft(vec![nft("a"), nft("b")]).unwrap().address, "b");
    assert!(QueryRoot.storefront(vec![]).is_none());
    let front = Storefront {
        owner_address: "owner".to_string(),
        subdomain: "shop".to_string(),
        title: "Shop".to_string(),
        description: String::new(),
        favicon_url: String::new(),
        logo_url: String::new(),
        updated_at: Some(5),
        banner_url: String::new(),
        address: "front".to_string(),
    };
    assert_eq!(QueryRoot.storefront(vec![front]).unwrap().subdomain, "shop");
    assert!(QueryRoot.marketplace(vec![]).is_none());
    let market = Marketplace {
        config_address: "config".to_string(),
        subdomain: "market".to_string(),
        name: "Market".to_string(),
        description: String::new(),
        logo_url: String::new(),
        banner_url: String::new(),
        owner_address: "owner".to_string(),
        auction_house_address: "house".to_string(),
    };
    assert_eq!(QueryRoot.marketplace(vec![market]).unwrap().name, "Market");
}

#[test]
fn profile_requests_name_the_two_endpoints() {
    let (show, picture) = QueryRoot.profile_requests("https://provider.example", "somebody");
    assert_eq!(show.url, "https://provider.example/1.1/users/show.json");
    assert_eq!(show.accept, "application/json");
    assert_eq!(show.query_key, "screen_name");
    assert_eq!(show.query_value, "somebody");
    assert_eq!(picture.url, "https://provider.example/2/users/by/username/somebody");
    assert_eq!(picture.accept, "application/json");
    assert_eq!(picture.query_key, "user.fields");
    assert_eq!(picture.query_value, "profile_image_url");
}

fn show() -> ProfileShowResponse {
    ProfileShowResponse {
        screen_name: "somebody".to_string(),
        profile_banner_url: "banner".to_string(),
    }
}

fn picture() -> ProfilePictureResponse {
    ProfilePictureResponse { profile_image_url: "image".to_string() }
}

#[test]
fn profile_is_made_of_both_answers() {
    let p = QueryRoot.profile(Ok(show()), Ok(picture())).unwrap();
    assert_eq!(p.handle, "somebody");
    assert_eq!(p.profile_image_url, "image");
    assert_eq!(p.banner_image_url, "banner");
}

#[test]
fn profile_is_absent_when_an_answer_failed() {
    assert!(QueryRoot.profile(Err(Error::Upstream), Ok(picture())).is_none());
    assert!(QueryRoot.profile(Ok(show()), Err(Error::Upstream)).is_none());
    assert!(QueryRoot.profile(Err(Error::Upstream), Err(Error::Upstream)).is_none());
}

fn named(name: &str, address: &str) -> Nft {
    let mut n = nft(address);
    n.name = name.to_string();
    n
}

#[test]
fn rows_are_ordered_by_name_descending() {
    let rows = vec![
        named("beta", "1"),
        named("alpha", "2"),
        named("", "3"),
        named("gamma", "4"),
        named("alphabet", "5"),
        named("Beta", "6"),
        named("beta", "7"),
        named("\u{e9}t\u{e9}", "8"),
    ];
    let out = order_by_name_descending(rows);
    let names: Vec<&str> = out.iter().map(|n| n.name.as_str()).collect();
    assert_eq!(names, vec!["\u{e9}t\u{e9}", "gamma", "beta", "beta", "alphabet", "alpha", "Beta", ""]);
    let mut addresses: Vec<&str> = out.iter().map(|n| n.address.as_str()).collect();
    addresses.sort();
    assert_eq!(addresses, vec!["1", "2", "3", "4", "5", "6", "7", "8"]);
}

#[test]
fn ordering_no_rows_gives_no_rows() {
    assert_eq!(order_by_name_descending(vec![]).len(), 0);
    let q = QueryRoot.nfts(Some(strings(&["o"])), None, None).unwrap();
    let out = q.arrange(vec![named("a", "1"), named("b", "2")]);
    assert_eq!(out[0].name, "b");
    assert_eq!(out[1].name, "a");
}
