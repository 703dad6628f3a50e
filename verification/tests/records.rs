use dr_write::doi::{name_from, node_from_crossref, strip_jats, DoiNode, Link, Name};
use dr_write::json::{get_member, Json, Number};

fn s(x: &str) -> Json {
    Json::Str(x.to_string())
}

fn n(x: u64) -> Json {
    Json::Num(Number::PosInt(x))
}

fn obj(v: Vec<(&str, Json)>) -> Json {
    Json::Object(v.into_iter().map(|(k, j)| (k.to_string(), j)).collect())
}

fn arr(v: Vec<Json>) -> Json {
    Json::Array(v)
}

fn crossref() -> Json {
    obj(vec![
        ("status", s("ok")),
        (
            "message",
            obj(vec![
                ("DOI", s("10.1000/xyz")),
                ("publisher", s("ACME Press")),
                ("abstract", s("<jats:p>First.</jats:p><jats:p>Second.</jats:p>")),
                ("type", s("journal-article")),
                ("title", arr(vec![s("A Title"), n(5), s("Subtitle")])),
                ("published-print", obj(vec![("date-parts", arr(vec![arr(vec![n(2020), n(3), n(14)])]))])),
                ("published-online", obj(vec![("date-parts", arr(vec![arr(vec![n(70000), s("x"), n(9)])]))])),
                ("created", obj(vec![("date-parts", arr(vec![arr(vec![n(2019), n(300), n(1000)])]))])),
                (
                    "author",
                    arr(vec![
                        obj(vec![("given", s("Ada")), ("family", s("Lovelace")), ("sequence", s("first"))]),
                        obj(vec![("name", s("The Group")), ("suffix", n(1))]),
                        s("not a person"),
                    ]),
                ),
            ]),
        ),
    ])
}

#[test]
fn crossref_record_fields() {
    let dn = node_from_crossref("thesis".to_string(), "10.1000/xyz".to_string(), &crossref());
    assert_eq!(dn.folder, "thesis");
    assert_eq!(dn.doi, Some("10.1000/xyz".to_string()));
    assert_eq!(dn.publisher, Some("ACME Press".to_string()));
    assert_eq!(dn.summary, Some("First.Second.".to_string()));
    assert_eq!(dn.typ, Some("journal-article".to_string()));
    assert_eq!(dn.titles, vec!["A Title".to_string(), "Subtitle".to_string()]);
    assert_eq!((dn.pub_year, dn.pub_month, dn.pub_day), (Some(2020), Some(3), Some(14)));
    // year truncated to u16; no month, so no day either
    assert_eq!((dn.pol_year, dn.pol_month, dn.pol_day), (Some((70000u64 % 65536) as u16), None, None));
    // month and day truncated to u8
    assert_eq!((dn.create_year, dn.create_month, dn.create_day), (Some(2019), Some(44), Some(232)));
    assert_eq!(dn.authors.len(), 3);
    assert_eq!(dn.authors[0].given, Some("Ada".to_string()));
    assert_eq!(dn.authors[0].family, Some("Lovelace".to_string()));
    assert_eq!(dn.authors[0].name, None);
    assert_eq!(dn.authors[1].name, Some("The Group".to_string()));
    assert_eq!(dn.authors[1].suffix, None);
    assert_eq!(
        dn.authors[2],
        Name { suffix: None, given: None, family: None, prefix: None, name: None }
    );
    assert!(dn.editors.is_empty());
    assert!(dn.links.is_empty());
}

#[test]
fn crossref_reply_without_message() {
    let dn = node_from_crossref("f".to_string(), "d".to_string(), &obj(vec![("status", s("ok"))]));
    assert_eq!(dn.doi, Some("d".to_string()));
    assert_eq!(dn.publisher, None);
    assert_eq!(dn.summary, None);
    assert_eq!(dn.pub_year, None);
    assert!(dn.titles.is_empty());
    assert!(dn.authors.is_empty());
}

#[test]
fn jats_tags_are_removed() {
    assert_eq!(strip_jats("<jats:p>a</jats:p>"), "a");
    assert_eq!(strip_jats("plain"), "plain");
    assert_eq!(strip_jats("<jats:p><jats:p>"), "");
}

#[test]
fn member_lookup_takes_the_first_match() {
    let v = obj(vec![("a", n(1)), ("a", n(2))]);
    assert_eq!(get_member(Some(&v), "a"), Some(&n(1)));
    assert_eq!(get_member(Some(&v), "b"), None);
    assert_eq!(get_member(Some(&s("a")), "a"), None);
}

#[test]
fn person_from_crossref() {
    let p = name_from(&obj(vec![("prefix", s("Dr")), ("given", Json::Null)]));
    assert_eq!(p.prefix, Some("Dr".to_string()));
    assert_eq!(p.given, None);
}

fn sample_node() -> DoiNode {
    node_from_crossref("thesis".to_string(), "10.1000/xyz".to_string(), &crossref())
}

#[test]
fn stored_record_reads_back() {
    let mut dn = sample_node();
    dn.links.push(Link {
        url: "u".to_string(),
        ctype: "c".to_string(),
        cversion: "v".to_string(),
        app: "a".to_string(),
    });
    let j = dn.to_json();
    let back = DoiNode::from_json(&j).unwrap();
    assert_eq!(back, dn);
}

#[test]
fn stored_record_layout() {
    let dn = sample_node();
    match dn.to_json() {
        Json::Object(entries) => {
            let names: Vec<&str> = entries.iter().map(|(k, _)| k.as_str()).collect();
            assert_eq!(
                names,
                vec![
                    "folder", "doi", "publisher", "pub_year", "pub_month", "pub_day", "pol_year",
                    "pol_month", "pol_day", "create_year", "create_month", "create_day", "titles",
                    "summary", "typ", "authors", "editors", "links"
                ]
            );
            assert_eq!(entries[3].1, n(2020));
            assert_eq!(entries[7].1, Json::Null);
        },
        _ => panic!("not an object"),
    }
}

#[test]
fn record_decoding_rules() {
    // missing optional fields are None; vectors are required
    let minimal = obj(vec![
        ("folder", s("f")),
        ("titles", arr(vec![])),
        ("authors", arr(vec![])),
        ("editors", arr(vec![])),
        ("links", arr(vec![])),
    ]);
    let dn = DoiNode::from_json(&minimal).unwrap();
    assert_eq!(dn.folder, "f");
    assert_eq!(dn.doi, None);
    assert_eq!(dn.pub_year, None);
    // a month above 255 does not fit
    let too_big = obj(vec![
        ("folder", s("f")),
        ("pub_month", n(256)),
        ("titles", arr(vec![])),
        ("authors", arr(vec![])),
        ("editors", arr(vec![])),
        ("links", arr(vec![])),
    ]);
    assert_eq!(DoiNode::from_json(&too_big), None);
    // a missing vector is an error
    assert_eq!(DoiNode::from_json(&obj(vec![("folder", s("f"))])), None);
    // not a record at all
    assert_eq!(DoiNode::from_json(&s("x")), None);
}

#[test]
fn person_decoding_rules() {
    assert_eq!(
        Name::from_json(&obj(vec![("given", s("A"))])),
        Some(Name { suffix: None, given: Some("A".to_string()), family: None, prefix: None, name: None })
    );
    // array form: every field given in order
    assert_eq!(
        Name::from_json(&arr(vec![Json::Null, s("A"), Json::Null, Json::Null, s("B")])),
        Some(Name {
            suffix: None,
            given: Some("A".to_string()),
            family: None,
            prefix: None,
            name: Some("B".to_string())
        })
    );
    // array form with a missing optional field is an error
    assert_eq!(Name::from_json(&arr(vec![Json::Null])), None);
    // too many items
    assert_eq!(Name::from_json(&arr((0..6).map(|_| Json::Null).collect())), None);
    // wrong type
    assert_eq!(Name::from_json(&obj(vec![("given", n(1))])), None);
}

#[test]
fn link_decoding_rules() {
    let l = obj(vec![("url", s("u")), ("ctype", s("c")), ("cversion", s("v")), ("app", s("a"))]);
    let link = Link::from_json(&l).unwrap();
    assert_eq!(link.to_json(), l);
    assert_eq!(Link::from_json(&obj(vec![("url", s("u"))])), None);
}
