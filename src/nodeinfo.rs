use vstd::prelude::*;

verus! {

/// One link of a NodeInfo discovery document.
#[derive(Debug)]
pub struct NodeInfoPointerLink {
    /// The schema the linked document follows.
    pub rel: String,
    /// Where the document is.
    pub href: String,
}

/// The `.well-known/nodeinfo` discovery document.
#[derive(Debug)]
pub struct NodeInfoPointer {
    pub links: Vec<NodeInfoPointerLink>,
}

/// Rank of a supported schema, 0 for the oldest; `None` for any other `rel`.
pub open spec fn schema_rank(rel: Seq<char>) -> Option<nat> {
    if rel == "http://nodeinfo.diaspora.software/ns/schema/1.0"@ {
        Some(0)
    } else if rel == "http://nodeinfo.diaspora.software/ns/schema/1.1"@ {
        Some(1)
    } else if rel == "http://nodeinfo.diaspora.software/ns/schema/2.0"@ {
        Some(2)
    } else if rel == "http://nodeinfo.diaspora.software/ns/schema/2.1"@ {
        Some(3)
    } else {
        None
    }
}

/// Whether link `i` of `links` has the highest supported schema, and no later
/// link has a schema as high.
pub open spec fn is_best_link(links: Seq<NodeInfoPointerLink>, i: int) -> bool {
    &&& 0 <= i < links.len()
    &&& schema_rank(links[i].rel@) is Some
    &&& forall|j: int|
        0 <= j < links.len() && #[trigger] schema_rank(links[j].rel@) is Some ==> schema_rank(
            links[j].rel@,
        )->0 <= schema_rank(links[i].rel@)->0
    &&& forall|j: int|
        i < j < links.len() && #[trigger] schema_rank(links[j].rel@) is Some ==> schema_rank(
            links[j].rel@,
        )->0 < schema_rank(links[i].rel@)->0
}

/// The rank of `rel` among the supported schemas.
fn rank_of(rel: &String) -> (r: Option<u8>)
    ensures
        r is Some <==> schema_rank(rel@) is Some,
        r matches Some(k) ==> k == schema_rank(rel@)->0,
{
    let v10 = String::from_str("http://nodeinfo.diaspora.software/ns/schema/1.0");
    let v11 = String::from_str("http://nodeinfo.diaspora.software/ns/schema/1.1");
    let v20 = String::from_str("http://nodeinfo.diaspora.software/ns/schema/2.0");
    let v21 = String::from_str("http://nodeinfo.diaspora.software/ns/schema/2.1");
    if *rel == v10 {
        Some(0)
    } else if *rel == v11 {
        Some(1)
    } else if *rel == v20 {
        Some(2)
    } else if *rel == v21 {
        Some(3)
    } else {
        None
    }
}

/// The `href` of the link with the highest supported schema version (the
/// last such link on a tie); `None` when no link has a supported schema.
pub fn pick_highest_supported_nodeinfo_version(pointer: &NodeInfoPointer) -> (r: Option<String>)
    ensures
        r is None <==> forall|j: int|
            0 <= j < pointer.links@.len() ==> #[trigger] schema_rank(pointer.links@[j].rel@) is None,
        r matches Some(h) ==> exists|i: int|
            is_best_link(pointer.links@, i) && #[trigger] pointer.links@[i].href@ == h@,
{
    let mut best: Option<usize> = None;
    let mut best_rank: u8 = 0;
    let mut k: usize = 0;
    while k < pointer.links.len()
        invariant
            k <= pointer.links@.len(),
            best is None ==> forall|j: int| 0 <= j < k ==> #[trigger] schema_rank(pointer.links@[j].rel@) is None,
            best matches Some(b) ==> {
                &&& b < k
                &&& schema_rank(pointer.links@[b as int].rel@) == Some(best_rank as nat)
                &&& forall|j: int|
                    0 <= j < k && #[trigger] schema_rank(pointer.links@[j].rel@) is Some
                        ==> schema_rank(pointer.links@[j].rel@)->0 <= best_rank
                &&& forall|j: int|
                    b < j < k && #[trigger] schema_rank(pointer.links@[j].rel@) is Some
                        ==> schema_rank(pointer.links@[j].rel@)->0 < best_rank
            },
        decreases pointer.links@.len() - k,
    {
        if let Some(rank) = rank_of(&pointer.links[k].rel) {
            let take = match best {
                None => true,
                Some(_) => rank >= best_rank,
            };
            if take {
                best = Some(k);
                best_rank = rank;
            }
        }
        k += 1;
    }
    match best {
        None => None,
        Some(b) => {
            let h = pointer.links[b].href.clone();
            assert(is_best_link(pointer.links@, b as int));
            assert(pointer.links@[b as int].href@ == h@);
            Some(h)
        },
    }
}

/// The `software.name` member of a NodeInfo document, as the `json` crate
/// prints it; `None` when the text is not JSON.
pub uninterp spec fn nodeinfo_software_name(doc: Seq<char>) -> Option<Seq<char>>;

/// Relies on `json::parse`, indexing of the parsed value by `software` then
/// `name`, and its `Display`: the printed member, or `None` on a parse error.
#[verifier::external_body]
fn parse_software_name(doc: &str) -> (r: Option<String>)
    ensures
        r is Some <==> nodeinfo_software_name(doc@) is Some,
        r matches Some(n) ==> nodeinfo_software_name(doc@) == Some(n@),
{
    match json::parse(doc) {
        Ok(obj) => Some(obj["software"]["name"].to_string()),
        Err(_) => None,
    }
}

/// Why a NodeInfo document gave no software name.
#[derive(PartialEq, Eq, Structural, Debug, Clone, Copy)]
pub enum NodeInfoError {
    /// The document is not JSON.
    NotJson,
}

/// The name of the software a NodeInfo document describes.
pub fn software_name(nodeinfo: &String) -> (r: Result<String, NodeInfoError>)
    ensures
        r is Ok <==> nodeinfo_software_name(nodeinfo@) is Some,
        r matches Ok(n) ==> nodeinfo_software_name(nodeinfo@) == Some(n@),
        r is Err ==> r == Err::<String, NodeInfoError>(NodeInfoError::NotJson),
{
    match parse_software_name(nodeinfo.as_str()) {
        Some(n) => Ok(n),
        None => Err(NodeInfoError::NotJson),
    }
}

} // verus!
