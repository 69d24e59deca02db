//! Conditions of writes.
use vstd::prelude::*;
use crate::error::StorageError;
use crate::model::Item;
use crate::text::str_eq;

verus! {

/// What the evaluation of a condition gave: whether it holds, or why it could not
/// be evaluated. `None` where there is no condition.
pub type Verdict = Option<Result<bool, String>>;

/// Turn the outcome of a condition into the outcome of a write check.
pub fn check_condition(verdict: Verdict) -> (r: Result<(), StorageError>)
    ensures
        match verdict {
            None => r is Ok,
            Some(Ok(true)) => r is Ok,
            Some(Ok(false)) => r == Err::<(), StorageError>(StorageError::ConditionFailed(None)),
            Some(Err(m)) => r == Err::<(), StorageError>(StorageError::Validation(m)),
        },
{
    match verdict {
        None => Ok(()),
        Some(Ok(passed)) => if passed {
            Ok(())
        } else {
            Err(StorageError::ConditionFailed(None))
        },
        Some(Err(m)) => Err(StorageError::Validation(m)),
    }
}

/// Check the condition of a write against the stored image. A failed condition
/// reports that image; a condition that holds hands it on.
pub fn check_image(verdict: Verdict, image: Option<Item>) -> (r: Result<Option<Item>, StorageError>)
    ensures
        match verdict {
            Some(Ok(false)) => r == Err::<Option<Item>, StorageError>(
                StorageError::ConditionFailed(image),
            ),
            Some(Err(m)) => r == Err::<Option<Item>, StorageError>(StorageError::Validation(m)),
            _ => r == Ok::<Option<Item>, StorageError>(image),
        },
{
    match check_condition(verdict) {
        Ok(_) => Ok(image),
        Err(StorageError::ConditionFailed(_)) => Err(StorageError::ConditionFailed(image)),
        Err(e) => Err(e),
    }
}

/// An element of an attribute path.
#[derive(Debug, PartialEq, Eq)]
pub enum PathElement {
    Attribute(String),
    Other,
}

/// A condition, as far as its shape matters.
#[derive(Debug, PartialEq, Eq)]
pub enum Expr {
    Function { name: String, args: Vec<Expr> },
    Path(Vec<PathElement>),
    Other,
}

/// The attribute that a name of an expression stands for: what the first
/// substitution for it says, else the name itself.
pub open spec fn resolved_name(substitutions: Seq<(String, String)>, name: Seq<char>) -> Seq<char>
    decreases substitutions.len(),
{
    if substitutions.len() == 0 {
        name
    } else if substitutions[0].0@ == name {
        substitutions[0].1@
    } else {
        resolved_name(substitutions.drop_first(), name)
    }
}

fn resolve_name<'a>(substitutions: &'a Vec<(String, String)>, name: &'a str) -> (r: &'a str)
    ensures
        r@ == resolved_name(substitutions@, name@),
{
    let mut i: usize = 0;
    proof {
        assert(substitutions@.skip(0) =~= substitutions@);
    }
    while i < substitutions.len()
        invariant
            i <= substitutions@.len(),
            resolved_name(substitutions@, name@) == resolved_name(
                substitutions@.skip(i as int),
                name@,
            ),
        decreases substitutions@.len() - i,
    {
        if str_eq(substitutions[i].0.as_str(), name) {
            return substitutions[i].1.as_str();
        }
        proof {
            assert(substitutions@.skip(i as int).drop_first() =~= substitutions@.skip(i + 1));
        }
        i = i + 1;
    }
    name
}

/// The path is a single attribute, which stands for the attribute of that name.
pub open spec fn is_attribute_path(
    e: Expr,
    substitutions: Seq<(String, String)>,
    name: Seq<char>,
) -> bool {
    &&& e matches Expr::Path(p)
    &&& p@.len() == 1
    &&& p@[0] matches PathElement::Attribute(a)
    &&& resolved_name(substitutions, a@) == name
}

/// The condition is `attribute_not_exists` of exactly one key attribute.
pub open spec fn is_key_not_exists(
    condition: Option<&Expr>,
    keys: Seq<String>,
    substitutions: Seq<(String, String)>,
) -> bool {
    condition matches Some(Expr::Function { name, args }) && name@ == "attribute_not_exists"@
        && args@.len() == 1 && exists|k: int|
        0 <= k < keys.len() && is_attribute_path(args@[0], substitutions, (#[trigger] keys[k])@)
}

fn has_name(names: &Vec<String>, name: &str) -> (r: bool)
    ensures
        r == exists|k: int| 0 <= k < names@.len() && (#[trigger] names@[k])@ == name@,
{
    let mut i: usize = 0;
    while i < names.len()
        invariant
            i <= names@.len(),
            forall|k: int| 0 <= k < i ==> (#[trigger] names@[k])@ != name@,
        decreases names@.len() - i,
    {
        if str_eq(names[i].as_str(), name) {
            assert(names@[i as int]@ == name@);
            return true;
        }
        i = i + 1;
    }
    false
}

/// Returns `true` if `condition` is exactly `attribute_not_exists(<key_attr>)` where
/// `<key_attr>` resolves to one of the names in `key_attr_names` after applying the
/// name substitutions of the expression.
///
/// This is the only condition that maps directly to a null-aware LWT without a
/// prior read.
pub fn is_attribute_not_exists_key(
    condition: Option<&Expr>,
    key_attr_names: &Vec<String>,
    substitutions: &Vec<(String, String)>,
) -> (r: bool)
    ensures
        r == is_key_not_exists(condition, key_attr_names@, substitutions@),
{
    match condition {
        Some(Expr::Function { name, args }) => {
            if !str_eq(name.as_str(), "attribute_not_exists") || args.len() != 1 {
                return false;
            }
            match &args[0] {
                Expr::Path(path) => {
                    if path.len() != 1 {
                        return false;
                    }
                    match &path[0] {
                        PathElement::Attribute(attr) => {
                            let attr_name = resolve_name(substitutions, attr.as_str());
                            let found = has_name(key_attr_names, attr_name);
                            proof {
                                if found {
                                    let k = choose|k: int|
                                        0 <= k < key_attr_names@.len()
                                            && (#[trigger] key_attr_names@[k])@ == attr_name@;
                                    assert(is_attribute_path(
                                        args@[0],
                                        substitutions@,
                                        key_attr_names@[k]@,
                                    ));
                                }
                            }
                            found
                        },
                        PathElement::Other => false,
                    }
                },
                _ => false,
            }
        },
        _ => false,
    }
}

} // verus!
