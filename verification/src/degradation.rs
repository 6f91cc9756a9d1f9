//! The inventory of known degradations and the checks that it excuses.
use vstd::prelude::*;
use crate::list::{collect, lemma_collect_step, lemma_take_all};
use crate::text::{texts, texts_contain};

verus! {

broadcast use lemma_take_all;

/// A degradation that somebody has acknowledged.
#[derive(Debug)]
pub struct KnownDegradation {
    pub namespace: String,
    pub resource_kind: String,
    pub name: String,
    pub condition: String,
    pub cause_kind: String,
    pub reason: String,
    pub acknowledged_by: String,
    pub ticket: String,
    /// Names of the checks whose failure this entry excuses.
    pub suppresses_check: Vec<String>,
}

/// The inventory of known degradations.
#[derive(Debug)]
pub struct KnownDegradationsConfig {
    pub known_degradations: Vec<KnownDegradation>,
}

impl Default for KnownDegradationsConfig {
    fn default() -> (r: KnownDegradationsConfig)
        ensures
            r.known_degradations@.len() == 0,
    {
        KnownDegradationsConfig { known_degradations: Vec::new() }
    }
}

/// Whether an entry excuses a check.
pub open spec fn excuses(check: Seq<char>) -> spec_fn(KnownDegradation) -> bool {
    |e: KnownDegradation| texts(e.suppresses_check@).contains(check)
}

/// Whether some entry excuses a check.
pub open spec fn suppressed(cfg: KnownDegradationsConfig, check: Seq<char>) -> bool {
    exists|i: int|
        0 <= i < cfg.known_degradations@.len() && excuses(check)(
            #[trigger] cfg.known_degradations@[i],
        )
}

/// The entry itself.
pub open spec fn entry_itself() -> spec_fn(KnownDegradation) -> KnownDegradation {
    |e: KnownDegradation| e
}

/// The entries that excuse a check, in the inventory's order.
pub open spec fn suppressors(cfg: KnownDegradationsConfig, check: Seq<char>) -> Seq<
    KnownDegradation,
> {
    collect(cfg.known_degradations@, excuses(check), entry_itself())
}

/// The inventory that was read, or an empty one where none could be read.
pub fn load(read: Option<KnownDegradationsConfig>) -> (r: KnownDegradationsConfig)
    ensures
        read is Some ==> r == read->0,
        read is None ==> r.known_degradations@.len() == 0,
{
    match read {
        Some(cfg) => cfg,
        None => KnownDegradationsConfig::default(),
    }
}

/// Tests whether at least one entry excuses a check.
pub fn is_suppressed(cfg: &KnownDegradationsConfig, check_name: &str) -> (r: bool)
    ensures
        r == suppressed(*cfg, check_name@),
{
    let mut i: usize = 0;
    while i < cfg.known_degradations.len()
        invariant
            i <= cfg.known_degradations@.len(),
            forall|j: int|
                0 <= j < i ==> !excuses(check_name@)(#[trigger] cfg.known_degradations@[j]),
        decreases cfg.known_degradations@.len() - i,
    {
        if texts_contain(&cfg.known_degradations[i].suppresses_check, check_name) {
            proof {
                assert(excuses(check_name@)(cfg.known_degradations@[i as int]));
            }
            return true;
        }
        i += 1;
    }
    false
}

/// The entries that excuse a check.
pub fn suppressors_for_check<'a>(cfg: &'a KnownDegradationsConfig, check_name: &str) -> (r: Vec<
    &'a KnownDegradation,
>)
    ensures
        r@.map_values(|e: &KnownDegradation| *e) == suppressors(*cfg, check_name@),
{
    let mut out: Vec<&'a KnownDegradation> = Vec::new();
    let mut i: usize = 0;
    proof {
        assert(out@.map_values(|e: &KnownDegradation| *e) =~= collect(
            cfg.known_degradations@.take(0),
            excuses(check_name@),
            entry_itself(),
        ));
    }
    while i < cfg.known_degradations.len()
        invariant
            i <= cfg.known_degradations@.len(),
            out@.map_values(|e: &KnownDegradation| *e) == collect(
                cfg.known_degradations@.take(i as int),
                excuses(check_name@),
                entry_itself(),
            ),
        decreases cfg.known_degradations@.len() - i,
    {
        proof {
            lemma_collect_step(
                cfg.known_degradations@,
                i as int,
                excuses(check_name@),
                entry_itself(),
            );
        }
        let entry = &cfg.known_degradations[i];
        if texts_contain(&entry.suppresses_check, check_name) {
            let ghost before = out@;
            out.push(entry);
            proof {
                assert(out@.map_values(|e: &KnownDegradation| *e) =~= before.map_values(
                    |e: &KnownDegradation| *e,
                ).push(*entry));
            }
        }
        i += 1;
    }
    out
}

/// A check is excused exactly when it has an entry that excuses it.
pub proof fn law_suppressed_by_some_entry(cfg: KnownDegradationsConfig, check: Seq<char>)
    ensures
        suppressed(cfg, check) <==> suppressors(cfg, check).len() > 0,
{
    let s = cfg.known_degradations@;
    crate::list::lemma_collect_len(s, excuses(check), entry_itself());
    crate::list::lemma_count_positive(s, excuses(check));
}

} // verus!
