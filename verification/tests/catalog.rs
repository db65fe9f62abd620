use token_contracts::assetlist::catalog::Catalog;
use token_contracts::assetlist::error::ContractError;
use token_contracts::assetlist::state::{Listing, Metadata};

fn listing(symbol: &str, author: Option<&str>) -> Listing {
    Listing {
        author: author.map(|a| a.to_string()),
        metadata: Metadata { symbol: symbol.to_string(), exp: Some(6), logo: None, chain: None },
    }
}

fn denoms(c: &Catalog) -> Vec<String> {
    let mut out = Vec::new();
    let mut i = 0;
    while let Some((d, _)) = c.get(i) {
        out.push(d.clone());
        i += 1;
    }
    out
}

#[test]
fn rows_stay_in_ascending_order() {
    let mut c = Catalog::new();
    assert_eq!(c.len(), 0);
    assert!(c.get(0).is_none());
    for (d, s) in [("m", "M"), ("a", "A"), ("z", "Z"), ("mm", "MM"), ("b", "B")] {
        assert_eq!(c.insert(d.to_string(), listing(s, Some("me"))), Ok(()));
    }
    assert_eq!(denoms(&c), vec!["a", "b", "m", "mm", "z"]);
    assert_eq!(c.remove("m").unwrap().metadata.symbol, "M");
    assert_eq!(denoms(&c), vec!["a", "b", "mm", "z"]);
    assert!(c.remove("m").is_none());
    assert_eq!(c.len(), 4);
    assert_eq!(c.first_after(None), 0);
    assert_eq!(c.first_after(Some("a")), 1);
    assert_eq!(c.first_after(Some("c")), 2);
    assert_eq!(c.first_after(Some("mm")), 3);
    assert_eq!(c.first_after(Some("z")), 4);
    assert_eq!(c.first_after(Some("")), 0);
}

#[test]
fn insert_refuses_keys_in_use() {
    let mut c = Catalog::new();
    c.insert("uosmo".to_string(), listing("OSMO", None)).unwrap();
    assert_eq!(
        c.insert("uosmo".to_string(), listing("ION", None)),
        Err(ContractError::DuplicateListing("uosmo".to_string()))
    );
    assert_eq!(
        c.insert("uion".to_string(), listing("OSMO", None)),
        Err(ContractError::DuplicateListing("OSMO".to_string()))
    );
    // the denomination is looked at first
    assert_eq!(
        c.insert("uosmo".to_string(), listing("OSMO", None)),
        Err(ContractError::DuplicateListing("uosmo".to_string()))
    );
    assert_eq!(c.len(), 1);
    assert!(!c.has("uion"));
    assert!(!c.has_symbol("ION"));
    // denominations and symbols are different name spaces
    c.insert("OSMO".to_string(), listing("uosmo", None)).unwrap();
    assert_eq!(c.resolve("uosmo").map(|d| d.as_str()), Some("OSMO"));
    assert_eq!(c.resolve("OSMO").map(|d| d.as_str()), Some("uosmo"));
}

#[test]
fn replace_keeps_the_indexes_together() {
    let mut c = Catalog::new();
    c.insert("uosmo".to_string(), listing("OSMO", Some("me"))).unwrap();
    c.insert("uion".to_string(), listing("ION", Some("me"))).unwrap();
    assert_eq!(
        c.replace("uatom", listing("ATOM", None)),
        Err(ContractError::ListingNotFound("uatom".to_string()))
    );
    assert_eq!(
        c.replace("uosmo", listing("ION", None)),
        Err(ContractError::DuplicateListing("ION".to_string()))
    );
    // the same symbol again is no collision
    assert_eq!(c.replace("uosmo", listing("OSMO", None)), Ok(()));
    assert_eq!(c.load("uosmo").unwrap().author, None);
    assert_eq!(c.replace("uosmo", listing("OSMO2", Some("you"))), Ok(()));
    assert_eq!(c.load("uosmo").unwrap(), &listing("OSMO2", Some("you")));
    assert!(!c.has_symbol("OSMO"));
    assert_eq!(c.resolve("OSMO2").map(|d| d.as_str()), Some("uosmo"));
    assert_eq!(c.resolve("ION").map(|d| d.as_str()), Some("uion"));
    assert_eq!(denoms(&c), vec!["uion", "uosmo"]);
}

#[test]
fn a_copy_is_independent() {
    let mut c = Catalog::new();
    c.insert("uosmo".to_string(), listing("OSMO", None)).unwrap();
    let mut d = c.clone();
    d.insert("uion".to_string(), listing("ION", None)).unwrap();
    d.remove("uosmo").unwrap();
    assert_eq!(denoms(&c), vec!["uosmo"]);
    assert!(c.has_symbol("OSMO"));
    assert_eq!(denoms(&d), vec!["uion"]);
    assert!(!d.has_symbol("OSMO"));
}
