//! Translation of the tickers a data vendor sends into canonical
//! instruments, through registered aliases (such as a rolling front-month
//! future name).

use vstd::prelude::*;
use crate::errors::MarketDataError;
use crate::symbol::{lemma_parse_normal_form, parse_canonical_outcome, reparses, same_instrument, Instrument};
use crate::text::{is_ascii_text, normalize, normalize_str, owned, text_eq, trim};

verus! {

/// The aliases a list of registrations defines: later registrations of an
/// alias replace earlier ones.
pub open spec fn alias_map(pairs: Seq<(String, String)>) -> Map<Seq<char>, Seq<char>>
    decreases pairs.len(),
{
    if pairs.len() == 0 {
        Map::empty()
    } else {
        let p = pairs.last();
        alias_map(pairs.drop_last()).insert(p.0@, p.1@)
    }
}

/// The text a normalised ticker `key` is read as under `aliases`: its
/// alias target if it has one, else itself.
pub open spec fn resolve(aliases: Map<Seq<char>, Seq<char>>, key: Seq<char>) -> Seq<char> {
    if aliases.dom().contains(key) {
        aliases[key]
    } else {
        key
    }
}

/// Entries after `i` of another key leave the alias of `key` as the first
/// `i` entries define it.
proof fn lemma_alias_map_prefix(pairs: Seq<(String, String)>, key: Seq<char>, i: int)
    requires
        0 <= i <= pairs.len(),
        forall|j: int| i <= j < pairs.len() ==> (#[trigger] pairs[j]).0@ != key,
    ensures
        alias_map(pairs).dom().contains(key) == alias_map(pairs.take(i)).dom().contains(key),
        alias_map(pairs).dom().contains(key) ==> alias_map(pairs)[key] == alias_map(pairs.take(i))[key],
    decreases pairs.len() - i,
{
    if i < pairs.len() {
        let t = pairs.take(i + 1);
        assert(t.drop_last() =~= pairs.take(i));
        assert(t.last() == pairs[i]);
        lemma_alias_map_prefix(pairs, key, i + 1);
    } else {
        assert(pairs.take(i) =~= pairs);
    }
}

/// Alias table of a vendor feed.
#[derive(Debug, Clone)]
pub struct SymbolMapper {
    aliases: Vec<(String, String)>,
}

impl View for SymbolMapper {
    type V = Map<Seq<char>, Seq<char>>;

    closed spec fn view(&self) -> Map<Seq<char>, Seq<char>> {
        alias_map(self.aliases@)
    }
}

impl SymbolMapper {
    /// No alias registered.
    pub fn new() -> (r: SymbolMapper)
        ensures
            r@ == Map::<Seq<char>, Seq<char>>::empty(),
    {
        SymbolMapper { aliases: Vec::new() }
    }

    /// Registers `alias` (normalised) as a name of the instrument `canonical`
    /// names, replacing an earlier target of the same alias. The target is
    /// read as an instrument first; when that fails, the error is returned
    /// and nothing is registered.
    pub fn register_alias(&mut self, alias: &str, canonical: &str) -> (r: Result<(), MarketDataError>)
        ensures
            r is Ok ==> exists|i: Instrument|
                #![trigger i.symbol_text()]
                parse_canonical_outcome(canonical@, Ok(i)) && reparses(i) && final(self)@ == old(
                    self,
                )@.insert(normalize(alias@), i.symbol_text()),
            r matches Err(e) ==> parse_canonical_outcome(canonical@, Err(e)) && final(self)@ == old(
                self,
            )@,
    {
        let inst = match Instrument::parse_canonical(canonical) {
            Ok(i) => i,
            Err(e) => {
                return Err(e);
            },
        };
        let a = normalize_str(alias);
        let c = owned(inst.as_str());
        self.aliases.push((a, c));
        proof {
            assert(self.aliases@.drop_last() =~= old(self).aliases@);
        }
        Ok(())
    }

    /// The alias target of the normalised ticker `key`, if it has one.
    fn lookup(&self, key: &str) -> (r: Option<String>)
        ensures
            r is Some <==> self@.dom().contains(key@),
            r matches Some(t) ==> t@ == self@[key@],
    {
        let mut i = self.aliases.len();
        while i > 0
            invariant
                i <= self.aliases@.len(),
                forall|j: int| i <= j < self.aliases@.len() ==> (#[trigger] self.aliases@[j]).0@ != key@,
            decreases i,
        {
            let ghost t = self.aliases@.take(i as int);
            if text_eq(self.aliases[i - 1].0.as_str(), key) {
                proof {
                    lemma_alias_map_prefix(self.aliases@, key@, i as int);
                    assert(t.drop_last() =~= self.aliases@.take(i - 1));
                    assert(t.last() == self.aliases@[i - 1]);
                }
                return Some(owned(self.aliases[i - 1].1.as_str()));
            }
            i = i - 1;
        }
        proof {
            lemma_alias_map_prefix(self.aliases@, key@, 0);
            assert(self.aliases@.take(0) =~= Seq::<(String, String)>::empty());
        }
        None
    }

    /// The text `raw` is read as: its alias target, or itself, normalised.
    fn target(&self, raw: &str) -> (r: String)
        ensures
            r@ == resolve(self@, normalize(raw@)),
    {
        let key = normalize_str(raw);
        match self.lookup(key.as_str()) {
            Some(t) => t,
            None => key,
        }
    }

    /// The instrument `raw` names, through its alias when it has one.
    pub fn map(&self, raw: &str) -> (r: Result<Instrument, MarketDataError>)
        ensures
            parse_canonical_outcome(resolve(self@, normalize(raw@)), r),
    {
        let t = self.target(raw);
        Instrument::parse_canonical(t.as_str())
    }

    /// The canonical text of the instrument `raw` names.
    pub fn map_to_canonical(&self, raw: &str) -> (r: Result<String, MarketDataError>)
        ensures
            r matches Ok(s) ==> exists|i: Instrument|
                parse_canonical_outcome(resolve(self@, normalize(raw@)), Ok(i)) && s@ == i.symbol_text(),
            r matches Err(e) ==> parse_canonical_outcome(resolve(self@, normalize(raw@)), Err(e)),
    {
        match self.map(raw) {
            Ok(inst) => Ok(owned(inst.as_str())),
            Err(e) => Err(e),
        }
    }
}

/// After an alias is registered with a target, a ticker naming it (in any
/// case, with any surrounding blanks) is read as that target; other tickers
/// are read as before.
pub proof fn lemma_alias_resolution(
    aliases: Map<Seq<char>, Seq<char>>,
    alias: Seq<char>,
    target: Seq<char>,
    raw: Seq<char>,
)
    ensures
        normalize(raw) == normalize(alias) ==> resolve(
            aliases.insert(normalize(alias), target),
            normalize(raw),
        ) == target,
        normalize(raw) != normalize(alias) ==> resolve(
            aliases.insert(normalize(alias), target),
            normalize(raw),
        ) == resolve(aliases, normalize(raw)),
{
}

/// Once `alias` is registered as a name of the instrument `i` that
/// `canonical` names, mapping any ticker that normalises like the alias
/// gives that instrument again; for a target whose trimmed text is ASCII,
/// it is also what reading the target's normal form gives.
pub proof fn lemma_registered_alias_maps(
    before: Map<Seq<char>, Seq<char>>,
    alias: Seq<char>,
    canonical: Seq<char>,
    i: Instrument,
    raw: Seq<char>,
    r: Result<Instrument, MarketDataError>,
)
    requires
        parse_canonical_outcome(canonical, Ok(i)),
        reparses(i),
        normalize(raw) == normalize(alias),
        parse_canonical_outcome(
            resolve(before.insert(normalize(alias), i.symbol_text()), normalize(raw)),
            r,
        ),
    ensures
        r matches Ok(j) && same_instrument(i, j),
        is_ascii_text(trim(canonical)) ==> parse_canonical_outcome(normalize(canonical), Ok(i)),
{
    lemma_alias_resolution(before, alias, i.symbol_text(), raw);
    if is_ascii_text(trim(canonical)) {
        lemma_parse_normal_form(canonical);
    }
}

} // verus!
