//! Rules on the dotted paths by which the interface reads and writes its
//! persisted configuration.

use vstd::prelude::*;

verus! {

/// Where a configuration write goes.
pub enum ConfigTarget {
    /// The value replaces the whole configuration.
    Whole,
    /// The value is stored as `property` of the object that `parents` lead to.
    Property { parents: Vec<String>, property: String },
}

/// Why a configuration write is refused.
pub open spec fn empty_path_message() -> Seq<char> {
    "dottedPath musn't be empty"@
}

pub open spec fn bad_root_message() -> Seq<char> {
    "dottedPath must start with globalConfig"@
}

pub open spec fn not_an_object_message() -> Seq<char> {
    "globalConfig has to be an object"@
}

/// The root that every configuration path starts with.
pub open spec fn root_name() -> Seq<char> {
    "globalConfig"@
}

/// Decides where a write of a value to `dotted_path` goes. The path must
/// start with `globalConfig`; what follows leads to the property written.
/// A path that names the root itself replaces the whole configuration,
/// which only an object (`value_is_document`) may do.
pub fn config_target(dotted_path: Vec<String>, value_is_document: bool) -> (r: Result<ConfigTarget, String>)
    ensures
        dotted_path.len() == 0 ==> (r matches Err(m) && m@ == empty_path_message()),
        dotted_path.len() > 0 && dotted_path[0]@ != root_name() ==> (r matches Err(m) && m@ == bad_root_message()),
        dotted_path.len() > 0 && dotted_path[0]@ == root_name() ==> ({
            let rest = dotted_path@.drop_first();
            let names_root = rest.len() == 0 || rest.last()@ == root_name();
            &&& (names_root && value_is_document ==> (r matches Ok(ConfigTarget::Whole)))
            &&& (names_root && !value_is_document ==> (r matches Err(m) && m@ == not_an_object_message()))
            &&& (!names_root ==> (r matches Ok(ConfigTarget::Property { parents, property })
                && parents@.map_values(|p: String| p@) == rest.drop_last().map_values(|p: String| p@)
                && property@ == rest.last()@))
        }),
{
    let mut dotted_path = dotted_path;
    if dotted_path.len() == 0 {
        return Err(String::from_str("dottedPath musn't be empty"));
    }
    if dotted_path[0] != String::from_str("globalConfig") {
        return Err(String::from_str("dottedPath must start with globalConfig"));
    }
    let ghost rest = dotted_path@.drop_first();
    dotted_path.remove(0);
    assert(dotted_path@ =~= rest);
    let property = match dotted_path.pop() {
        Some(v) => v,
        None => String::from_str("globalConfig"),
    };
    if property == String::from_str("globalConfig") {
        if value_is_document {
            return Ok(ConfigTarget::Whole);
        } else {
            return Err(String::from_str("globalConfig has to be an object"));
        }
    }
    assert(dotted_path@ =~= rest.drop_last());
    Ok(ConfigTarget::Property { parents: dotted_path, property })
}

/// The property path of a read: the dotted path without its root.
pub fn property_path(dotted_path: &Vec<String>) -> (r: Vec<String>)
    requires
        dotted_path.len() > 0,
    ensures
        r@.map_values(|p: String| p@) == dotted_path@.drop_first().map_values(|p: String| p@),
{
    let mut r: Vec<String> = Vec::new();
    let mut k: usize = 1;
    while k < dotted_path.len()
        invariant
            1 <= k <= dotted_path.len(),
            r@.map_values(|p: String| p@) == dotted_path@.subrange(1, k as int).map_values(|p: String| p@),
        decreases dotted_path.len() - k,
    {
        let ghost before = r@;
        let item = dotted_path[k].clone();
        r.push(item);
        proof {
            assert(r@ == before.push(item));
            assert(r@.map_values(|p: String| p@) =~= before.map_values(|p: String| p@).push(item@));
            assert(dotted_path@.subrange(1, k + 1) =~= dotted_path@.subrange(1, k as int).push(dotted_path@[k as int]));
            assert(r@.map_values(|p: String| p@) =~= dotted_path@.subrange(1, k + 1).map_values(|p: String| p@));
        }
        k = k + 1;
    }
    assert(dotted_path@.subrange(1, dotted_path.len() as int) =~= dotted_path@.drop_first());
    r
}

/// Whether the configuration store exists: opening it for reading worked.
pub fn promise_is_file<T>(access: &Result<T, String>) -> (r: bool)
    ensures
        r == access is Ok,
{
    match access {
        Ok(_) => true,
        Err(_) => false,
    }
}

} // verus!
