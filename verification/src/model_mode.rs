//! Effective model sets per node.

use vstd::prelude::*;

verus! {

/// How effective model sets are calculated per node.
#[derive(Debug, Clone, Copy, PartialEq, Eq, Structural)]
pub enum ModelMode {
    Discover,
    Allow,
    Static,
}

impl Default for ModelMode {
    fn default() -> (r: Self)
        ensures
            r == ModelMode::Discover,
    {
        ModelMode::Discover
    }
}

/// The effective models of a node: everything discovered, the discovered
/// models that are also configured (in discovery order), or exactly the
/// configured models.
pub open spec fn effective(mode: ModelMode, discovered: Seq<Seq<char>>, configured: Seq<Seq<char>>) -> Seq<
    Seq<char>,
> {
    match mode {
        ModelMode::Discover => discovered,
        ModelMode::Allow => discovered.filter(|m: Seq<char>| configured.contains(m)),
        ModelMode::Static => configured,
    }
}

/// Whether `needle` occurs in `names`.
pub fn contains_string(names: &[String], needle: &str) -> (r: bool)
    ensures
        r == names@.map_values(|s: String| s@).contains(needle@),
{
    let ghost views = names@.map_values(|s: String| s@);
    let mut i: usize = 0;
    while i < names.len()
        invariant
            0 <= i <= names@.len(),
            views == names@.map_values(|s: String| s@),
            forall|k: int| 0 <= k < i ==> views[k] != needle@,
        decreases names@.len() - i,
    {
        if crate::text::str_eq(names[i].as_str(), needle) {
            assert(views[i as int] == needle@);
            return true;
        }
        i = i + 1;
    }
    false
}

/// Copy a list of strings.
pub fn copy_strings(names: &[String]) -> (r: Vec<String>)
    ensures
        r@ == names@,
{
    let mut out: Vec<String> = Vec::new();
    let mut i: usize = 0;
    while i < names.len()
        invariant
            0 <= i <= names@.len(),
            out@ == names@.take(i as int),
        decreases names@.len() - i,
    {
        out.push(names[i].clone());
        assert(names@.take(i + 1) =~= names@.take(i as int).push(names@[i as int]));
        i = i + 1;
    }
    assert(names@.take(names@.len() as int) =~= names@);
    out
}

/// Compute effective models for a node based on discovery mode.
pub fn effective_models(mode: ModelMode, discovered: &[String], configured: &[String]) -> (r: Vec<
    String,
>)
    ensures
        r@.map_values(|s: String| s@) == effective(
            mode,
            discovered@.map_values(|s: String| s@),
            configured@.map_values(|s: String| s@),
        ),
{
    match mode {
        ModelMode::Discover => copy_strings(discovered),
        ModelMode::Static => copy_strings(configured),
        ModelMode::Allow => {
            let ghost dv = discovered@.map_values(|s: String| s@);
            let ghost cv = configured@.map_values(|s: String| s@);
            let ghost pred = |m: Seq<char>| cv.contains(m);
            let mut out: Vec<String> = Vec::new();
            let mut i: usize = 0;
            while i < discovered.len()
                invariant
                    0 <= i <= discovered@.len(),
                    dv == discovered@.map_values(|s: String| s@),
                    cv == configured@.map_values(|s: String| s@),
                    pred == (|m: Seq<char>| cv.contains(m)),
                    out@.map_values(|s: String| s@) == dv.take(i as int).filter(pred),
                decreases discovered@.len() - i,
            {
                let keep = contains_string(configured, discovered[i].as_str());
                proof {
                    assert(dv.take(i + 1) =~= dv.take(i as int).push(dv[i as int]));
                    dv.take(i as int).lemma_filter_push(dv[i as int], pred);
                }
                if keep {
                    let ghost before = out@;
                    out.push(discovered[i].clone());
                    assert(out@.map_values(|s: String| s@) =~= before.map_values(|s: String| s@).push(
                        dv[i as int],
                    ));
                }
                i = i + 1;
            }
            assert(dv.take(discovered@.len() as int) =~= dv);
            out
        },
    }
}

} // verus!
