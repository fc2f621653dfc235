use fediverse_observer::nodeinfo::{
    pick_highest_supported_nodeinfo_version, software_name, NodeInfoError, NodeInfoPointer,
    NodeInfoPointerLink,
};

#[test]
fn picks_highest_nodeinfo_version() {
    assert_eq!(
        pick_highest_supported_nodeinfo_version(&NodeInfoPointer { links: vec![] }),
        None,
    );

    assert_eq!(
        pick_highest_supported_nodeinfo_version(&NodeInfoPointer {
            links: vec![NodeInfoPointerLink {
                rel: "http://nodeinfo.diaspora.software/ns/schema/2.2".to_string(),
                href: "first".to_string()
            }],
        }),
        None,
    );

    assert_eq!(
        pick_highest_supported_nodeinfo_version(&NodeInfoPointer {
            links: vec![NodeInfoPointerLink {
                rel: "http://nodeinfo.diaspora.software/ns/schema/1.0".to_string(),
                href: "first".to_string()
            }],
        }),
        Some("first".to_string())
    );

    assert_eq!(
        pick_highest_supported_nodeinfo_version(&NodeInfoPointer {
            links: vec![
                NodeInfoPointerLink {
                    rel: "http://nodeinfo.diaspora.software/ns/schema/1.0".to_string(),
                    href: "first".to_string()
                },
                NodeInfoPointerLink {
                    rel: "http://nodeinfo.diaspora.software/ns/schema/2.1".to_string(),
                    href: "2.1".to_string()
                }
            ],
        }),
        Some("2.1".to_string())
    );

    assert_eq!(
        pick_highest_supported_nodeinfo_version(&NodeInfoPointer {
            links: vec![
                NodeInfoPointerLink {
                    rel: "http://nodeinfo.diaspora.software/ns/schema/2.0".to_string(),
                    href: "highest is the first".to_string()
                },
                NodeInfoPointerLink {
                    rel: "http://nodeinfo.diaspora.software/ns/schema/1.1".to_string(),
                    href: "lowest is the second".to_string()
                }
            ],
        }),
        Some("highest is the first".to_string())
    );
}

#[test]
fn equal_schemas_pick_the_last_link() {
    let link = |href: &str| NodeInfoPointerLink {
        rel: "http://nodeinfo.diaspora.software/ns/schema/2.0".to_string(),
        href: href.to_string(),
    };
    let pointer = NodeInfoPointer { links: vec![link("a"), link("b")] };
    assert_eq!(pick_highest_supported_nodeinfo_version(&pointer), Some("b".to_string()));
}

#[test]
fn software_name_reads_the_document() {
    let doc = r#"{"version":"2.0","software":{"name":"mastodon","version":"4.2.0"}}"#.to_string();
    assert_eq!(software_name(&doc), Ok("mastodon".to_string()));
}

#[test]
fn software_name_of_a_document_without_software() {
    let doc = r#"{"version":"2.0"}"#.to_string();
    assert_eq!(software_name(&doc), Ok("null".to_string()));
}

#[test]
fn software_name_rejects_text_that_is_not_json() {
    let doc = "<html>".to_string();
    assert_eq!(software_name(&doc), Err(NodeInfoError::NotJson));
}
