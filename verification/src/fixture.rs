//! The in-repository fixture contracts: which way each is wrong, and the surface each
//! one publishes.
//!
//! Every fixture after the conforming one is wrong in exactly one way, so a failing
//! run points at one requirement. The surface a fixture publishes is declared here in
//! the shape interface inspection produces, and the declaration differs between
//! fixtures only where their defect makes the surface differ.
use vstd::prelude::*;

use crate::text::str_eq;

verus! {

/// Which way a fixture is wrong.
#[derive(Debug, Clone, Copy, PartialEq, Eq, Structural)]
pub enum Defect {
    /// Nothing: the contract behaves as the profile requires.
    Conforming,
    /// `transfer` never calls `require_auth`.
    SkipsAuthorization,
    /// `transfer` moves the value but publishes no event.
    OmitsEvent,
    /// `transfer` credits one unit less than it debits.
    WrongCreditAmount,
    /// `transfer` emits two transfer events for one movement.
    DoubleEmits,
    /// `transfer` states an amount one unit larger than it moved.
    WrongEventAmount,
    /// `transfer` permits an overdraft.
    AllowsOverdraft,
    /// The interface omits `decimals`.
    MissingDecimals,
}

impl Defect {
    /// The stable name a caller selects the fixture by.
    pub open spec fn spec_name(self) -> Seq<char> {
        match self {
            Defect::Conforming => "none"@,
            Defect::SkipsAuthorization => "skips-authorization"@,
            Defect::OmitsEvent => "omits-event"@,
            Defect::WrongCreditAmount => "wrong-credit-amount"@,
            Defect::DoubleEmits => "double-emits"@,
            Defect::WrongEventAmount => "wrong-event-amount"@,
            Defect::AllowsOverdraft => "allows-overdraft"@,
            Defect::MissingDecimals => "missing-decimals"@,
        }
    }

    /// Every defect, in the order the fixtures are declared.
    pub open spec fn spec_all() -> Seq<Defect> {
        seq![
            Defect::Conforming,
            Defect::SkipsAuthorization,
            Defect::OmitsEvent,
            Defect::WrongCreditAmount,
            Defect::DoubleEmits,
            Defect::WrongEventAmount,
            Defect::AllowsOverdraft,
            Defect::MissingDecimals,
        ]
    }

    /// Every defect, in the order the fixtures are declared.
    pub fn all() -> (res: Vec<Defect>)
        ensures
            res@ == Self::spec_all(),
    {
        vec![
            Defect::Conforming,
            Defect::SkipsAuthorization,
            Defect::OmitsEvent,
            Defect::WrongCreditAmount,
            Defect::DoubleEmits,
            Defect::WrongEventAmount,
            Defect::AllowsOverdraft,
            Defect::MissingDecimals,
        ]
    }

    /// The stable name a caller selects it by.
    pub fn as_str(self) -> (res: &'static str)
        ensures
            res@ == self.spec_name(),
    {
        match self {
            Defect::Conforming => "none",
            Defect::SkipsAuthorization => "skips-authorization",
            Defect::OmitsEvent => "omits-event",
            Defect::WrongCreditAmount => "wrong-credit-amount",
            Defect::DoubleEmits => "double-emits",
            Defect::WrongEventAmount => "wrong-event-amount",
            Defect::AllowsOverdraft => "allows-overdraft",
            Defect::MissingDecimals => "missing-decimals",
        }
    }

    /// The defect with this name, where there is one.
    pub fn parse(name: &str) -> (res: Option<Defect>)
        ensures
            match res {
                Some(defect) => defect.spec_name() == name@,
                None => forall|defect: Defect| #[trigger] defect.spec_name() != name@,
            },
    {
        let all = Self::all();
        let mut i: usize = 0;
        while i < all.len()
            invariant
                all@ == Self::spec_all(),
                i <= all@.len(),
                forall|j: int| 0 <= j < i ==> (#[trigger] all@[j]).spec_name() != name@,
            decreases all@.len() - i,
        {
            if str_eq(all[i].as_str(), name) {
                return Some(all[i]);
            }
            i = i + 1;
        }
        proof {
            assert forall|defect: Defect| #[trigger] defect.spec_name() != name@ by {
                Self::lemma_listed(defect);
            }
        }
        None
    }

    /// What the defect violates.
    pub fn violates(self) -> (res: &'static str)
        ensures
            res@ == self.spec_violates(),
    {
        match self {
            Defect::Conforming => "nothing: this contract is the conforming case",
            Defect::SkipsAuthorization => "the requirement that a transfer be authorized",
            Defect::OmitsEvent => "the requirement that a successful transfer publish exactly one transfer event",
            Defect::WrongCreditAmount => "the requirement that a transfer credit the recipient by the amount it debited",
            Defect::DoubleEmits => "the transfer event's cardinality",
            Defect::WrongEventAmount => "the requirement that the event's amount equal the movement",
            Defect::AllowsOverdraft => "the requirement that a transfer beyond the balance fail",
            Defect::MissingDecimals => "the requirement that the interface expose `decimals`",
        }
    }

    /// What the defect violates, as text.
    pub open spec fn spec_violates(self) -> Seq<char> {
        match self {
            Defect::Conforming => "nothing: this contract is the conforming case"@,
            Defect::SkipsAuthorization => "the requirement that a transfer be authorized"@,
            Defect::OmitsEvent => "the requirement that a successful transfer publish exactly one transfer event"@,
            Defect::WrongCreditAmount => "the requirement that a transfer credit the recipient by the amount it debited"@,
            Defect::DoubleEmits => "the transfer event's cardinality"@,
            Defect::WrongEventAmount => "the requirement that the event's amount equal the movement"@,
            Defect::AllowsOverdraft => "the requirement that a transfer beyond the balance fail"@,
            Defect::MissingDecimals => "the requirement that the interface expose `decimals`"@,
        }
    }

    /// Whether this fixture publishes `decimals`.
    pub open spec fn spec_exposes_decimals(self) -> bool {
        !(self is MissingDecimals)
    }

    /// Whether this fixture publishes the `decimals` method a profile requires.
    pub fn exposes_decimals(self) -> (res: bool)
        ensures
            res == self.spec_exposes_decimals(),
    {
        !matches!(self, Defect::MissingDecimals)
    }

    proof fn lemma_listed(defect: Defect)
        ensures
            Self::spec_all().contains(defect),
    {
        let all = Self::spec_all();
        match defect {
            Defect::Conforming => assert(all[0] == defect),
            Defect::SkipsAuthorization => assert(all[1] == defect),
            Defect::OmitsEvent => assert(all[2] == defect),
            Defect::WrongCreditAmount => assert(all[3] == defect),
            Defect::DoubleEmits => assert(all[4] == defect),
            Defect::WrongEventAmount => assert(all[5] == defect),
            Defect::AllowsOverdraft => assert(all[6] == defect),
            Defect::MissingDecimals => assert(all[7] == defect),
        }
    }
}

/// Every defect is listed exactly once, and two defects never share a name: a name
/// selects exactly one fixture, so selecting by name and listing by name agree.
pub proof fn law_defect_names_are_distinct(a: Defect, b: Defect)
    ensures
        Defect::spec_all().contains(a),
        a.spec_name() == b.spec_name() ==> a == b,
{
    Defect::lemma_listed(a);
    reveal_strlit("none");
    reveal_strlit("skips-authorization");
    reveal_strlit("omits-event");
    reveal_strlit("wrong-credit-amount");
    reveal_strlit("double-emits");
    reveal_strlit("wrong-event-amount");
    reveal_strlit("allows-overdraft");
    reveal_strlit("missing-decimals");
    if a.spec_name() == b.spec_name() {
        assert(a.spec_name().len() == b.spec_name().len());
        assert(a.spec_name()[0] == b.spec_name()[0]);
        match a {
            Defect::Conforming => {},
            Defect::SkipsAuthorization => {},
            Defect::OmitsEvent => {},
            Defect::WrongCreditAmount => {},
            Defect::DoubleEmits => {},
            Defect::WrongEventAmount => {},
            Defect::AllowsOverdraft => {},
            Defect::MissingDecimals => {},
        }
    }
}

/// One method a fixture publishes, in plain types.
#[derive(Debug)]
pub struct Exposed {
    /// The method's name.
    pub name: &'static str,
    /// Its parameter types, in order, in the spelling the runner compares.
    pub parameters: Vec<&'static str>,
    /// Its return type, or `None` for a void return.
    pub return_type: Option<&'static str>,
    /// Whether the method is read-only.
    pub readonly: bool,
}

/// The mathematical shape of a published method.
pub struct Surface {
    /// The method's name.
    pub name: Seq<char>,
    /// Its parameter types, in order.
    pub parameters: Seq<Seq<char>>,
    /// Its return type, if it returns one.
    pub return_type: Option<Seq<char>>,
    /// Whether it is read-only.
    pub readonly: bool,
}

/// The text of an optional type name.
pub open spec fn optional_text(name: Option<&'static str>) -> Option<Seq<char>> {
    match name {
        Some(text) => Some(text@),
        None => None,
    }
}

impl View for Exposed {
    type V = Surface;

    open spec fn view(&self) -> Surface {
        Surface {
            name: self.name@,
            parameters: self.parameters@.map_values(|p: &'static str| p@),
            return_type: optional_text(self.return_type),
            readonly: self.readonly,
        }
    }
}

/// A published method, as its parts.
pub open spec fn surface(
    name: Seq<char>,
    parameters: Seq<Seq<char>>,
    return_type: Option<Seq<char>>,
    readonly: bool,
) -> Surface {
    Surface { name, parameters, return_type, readonly }
}

/// The views of a list of published methods.
pub open spec fn surfaces(list: Seq<Exposed>) -> Seq<Surface> {
    list.map_values(|e: Exposed| e@)
}

/// The SEP-0041 method surface, in the order the standard declares it.
pub open spec fn spec_standard() -> Seq<Surface> {
    seq![
        surface("transfer"@, seq!["address"@, "muxed_address"@, "i128"@], None, false),
        surface("approve"@, seq!["address"@, "address"@, "i128"@, "u32"@], None, false),
        surface("allowance"@, seq!["address"@, "address"@], Some("i128"@), true),
        surface("balance"@, seq!["address"@], Some("i128"@), true),
        surface("transfer_from"@, seq!["address"@, "address"@, "address"@, "i128"@], None, false),
        surface("burn"@, seq!["address"@, "i128"@], None, false),
        surface("burn_from"@, seq!["address"@, "address"@, "i128"@], None, false),
        surface("decimals"@, seq![], Some("u32"@), true),
        surface("name"@, seq![], Some("string"@), true),
        surface("symbol"@, seq![], Some("string"@), true),
    ]
}

/// The entry points a fixture exposes so that a vector's opening state can be set.
pub open spec fn spec_setup() -> Seq<Surface> {
    seq![
        surface("fixture_mint"@, seq!["address"@, "i128"@], None, false),
        surface("fixture_approve"@, seq!["address"@, "address"@, "i128"@, "u32"@], None, false),
    ]
}

/// The entry points only the conforming fixture publishes, so a test can observe something.
pub open spec fn spec_observation() -> Seq<Surface> {
    seq![
        surface("total_supply"@, seq![], Some("i128"@), true),
        surface("always_refuses"@, seq![], Some("i128"@), false),
        surface("emits_then_refuses"@, seq!["address"@], None, false),
        surface("mutates_then_refuses"@, seq!["address"@, "i128"@, "bool"@], None, false),
    ]
}

/// Whether a published method is not `decimals`.
pub open spec fn not_decimals(entry: Surface) -> bool {
    entry.name != "decimals"@
}

/// Whether a method is kept when `decimals` is kept only if `keep_decimals`.
pub open spec fn keeps(keep_decimals: bool, entry: Surface) -> bool {
    keep_decimals || not_decimals(entry)
}

/// The methods of `list`, without `decimals` unless `keep_decimals`.
pub open spec fn spec_keep(list: Seq<Surface>, keep_decimals: bool) -> Seq<Surface> {
    list.filter(|e: Surface| keeps(keep_decimals, e))
}

/// The methods the fixture for `defect` publishes.
pub open spec fn spec_declared(defect: Defect) -> Seq<Surface> {
    match defect {
        Defect::Conforming => spec_standard() + spec_observation() + spec_setup(),
        Defect::MissingDecimals => spec_keep(spec_standard(), false) + spec_setup(),
        _ => spec_standard() + spec_setup(),
    }
}

/// The standard's own methods that the fixture for `defect` publishes.
pub open spec fn spec_token_methods(defect: Defect) -> Seq<Surface> {
    spec_keep(spec_standard(), defect.spec_exposes_decimals())
}

fn exposing(
    name: &'static str,
    parameters: Vec<&'static str>,
    return_type: Option<&'static str>,
    readonly: bool,
) -> (res: Exposed)
    ensures
        res.name == name,
        res.parameters == parameters,
        res.return_type == return_type,
        res.readonly == readonly,
{
    Exposed { name, parameters, return_type, readonly }
}

/// The SEP-0041 method surface, in the order the standard declares it.
pub fn standard_surface() -> (res: Vec<Exposed>)
    ensures
        surfaces(res@) == spec_standard(),
{
    let mut v: Vec<Exposed> = Vec::new();
    v.push(exposing("transfer", vec!["address", "muxed_address", "i128"], None, false));
    v.push(exposing("approve", vec!["address", "address", "i128", "u32"], None, false));
    v.push(exposing("allowance", vec!["address", "address"], Some("i128"), true));
    v.push(exposing("balance", vec!["address"], Some("i128"), true));
    v.push(exposing("transfer_from", vec!["address", "address", "address", "i128"], None, false));
    v.push(exposing("burn", vec!["address", "i128"], None, false));
    v.push(exposing("burn_from", vec!["address", "address", "i128"], None, false));
    v.push(exposing("decimals", vec![], Some("u32"), true));
    v.push(exposing("name", vec![], Some("string"), true));
    v.push(exposing("symbol", vec![], Some("string"), true));
    proof {
        assert(surfaces(v@) =~= spec_standard()) by {
            assert forall|i: int| 0 <= i < v@.len() implies #[trigger] surfaces(v@)[i] == spec_standard()[i] by {
                assert(v@[i].parameters@.map_values(|p: &'static str| p@) =~= spec_standard()[i].parameters);
            }
        }
    }
    v
}

/// The entry points that set a vector's opening state.
pub fn setup_surface() -> (res: Vec<Exposed>)
    ensures
        surfaces(res@) == spec_setup(),
{
    let mut v: Vec<Exposed> = Vec::new();
    v.push(exposing("fixture_mint", vec!["address", "i128"], None, false));
    v.push(exposing("fixture_approve", vec!["address", "address", "i128", "u32"], None, false));
    proof {
        assert(surfaces(v@) =~= spec_setup()) by {
            assert forall|i: int| 0 <= i < v@.len() implies #[trigger] surfaces(v@)[i] == spec_setup()[i] by {
                assert(v@[i].parameters@.map_values(|p: &'static str| p@) =~= spec_setup()[i].parameters);
            }
        }
    }
    v
}

/// The entry points that exist so that a test can observe something.
pub fn observation_surface() -> (res: Vec<Exposed>)
    ensures
        surfaces(res@) == spec_observation(),
{
    let mut v: Vec<Exposed> = Vec::new();
    v.push(exposing("total_supply", vec![], Some("i128"), true));
    v.push(exposing("always_refuses", vec![], Some("i128"), false));
    v.push(exposing("emits_then_refuses", vec!["address"], None, false));
    v.push(exposing("mutates_then_refuses", vec!["address", "i128", "bool"], None, false));
    proof {
        assert(surfaces(v@) =~= spec_observation()) by {
            assert forall|i: int| 0 <= i < v@.len() implies #[trigger] surfaces(v@)[i] == spec_observation()[i] by {
                assert(v@[i].parameters@.map_values(|p: &'static str| p@) =~= spec_observation()[i].parameters);
            }
        }
    }
    v
}

proof fn lemma_surfaces_add(a: Seq<Exposed>, b: Seq<Exposed>)
    ensures
        surfaces(a + b) == surfaces(a) + surfaces(b),
{
    assert(surfaces(a + b) =~= surfaces(a) + surfaces(b));
}

/// The methods of `list`, without `decimals` unless `keep_decimals`.
fn keep_methods(list: Vec<Exposed>, keep_decimals: bool) -> (res: Vec<Exposed>)
    ensures
        surfaces(res@) == spec_keep(surfaces(list@), keep_decimals),
{
    let ghost original = list@;
    let count: usize = list.len();
    let mut rest = list;
    let mut kept: Vec<Exposed> = Vec::new();
    let mut i: usize = 0;
    while rest.len() > 0
        invariant
            i <= original.len(),
            rest@ == original.skip(i as int),
            rest@.len() == original.len() - i,
            original.len() == count,
            surfaces(kept@) == spec_keep(surfaces(original.take(i as int)), keep_decimals),
        decreases rest@.len(),
    {
        let entry = rest.remove(0);
        proof {
            assert(surfaces(original.take(i as int + 1)).drop_last() =~= surfaces(original.take(i as int)));
            assert(surfaces(original.take(i as int + 1)).last() == original[i as int]@);
            reveal_with_fuel(Seq::<_>::filter, 1);
            assert(rest@ =~= original.skip(i as int + 1));
        }
        if keep_decimals || !str_eq(entry.name, "decimals") {
            let ghost before = kept@;
            kept.push(entry);
            proof { lemma_surfaces_add(before, seq![original[i as int]]); }
        }
        i = i + 1;
    }
    proof { assert(original.take(original.len() as int) =~= original); }
    kept
}

/// The methods the fixture for `defect` publishes.
pub fn declared(defect: Defect) -> (res: Vec<Exposed>)
    ensures
        surfaces(res@) == spec_declared(defect),
{
    let mut methods = standard_surface();
    match defect {
        Defect::Conforming => {
            let mut observation = observation_surface();
            let ghost a = methods@;
            methods.append(&mut observation);
            proof { lemma_surfaces_add(a, observation@); }
        },
        Defect::MissingDecimals => {
            methods = keep_methods(methods, false);
        },
        _ => {},
    }
    let mut setup = setup_surface();
    let ghost before = methods@;
    let ghost setup_view = setup@;
    methods.append(&mut setup);
    proof { lemma_surfaces_add(before, setup_view); }
    methods
}

/// The standard's own methods, without the entry points that exist for the runner.
pub fn token_methods(defect: Defect) -> (res: Vec<Exposed>)
    ensures
        surfaces(res@) == spec_token_methods(defect),
{
    keep_methods(standard_surface(), defect.exposes_decimals())
}

/// Whether a name is one of the entry points that are not part of the standard.
pub fn is_auxiliary(name: &str) -> (res: bool)
    ensures
        res == exists|i: int|
            0 <= i < spec_setup().len() + spec_observation().len()
                && (#[trigger] (spec_setup() + spec_observation())[i]).name == name@,
{
    let mut entries = setup_surface();
    let mut observation = observation_surface();
    let ghost a = entries@;
    let ghost b = observation@;
    entries.append(&mut observation);
    proof { lemma_surfaces_add(a, b); }
    let mut i: usize = 0;
    while i < entries.len()
        invariant
            i <= entries@.len(),
            surfaces(entries@) == spec_setup() + spec_observation(),
            forall|j: int| 0 <= j < i ==> (#[trigger] entries@[j]).name@ != name@,
        decreases entries@.len() - i,
    {
        if str_eq(entries[i].name, name) {
            proof {
                assert(entries@[i as int].name@ == name@);
                assert(surfaces(entries@)[i as int] == entries@[i as int]@);
                assert(surfaces(entries@)[i as int].name == name@);
                assert(surfaces(entries@).len() == entries@.len());
                assert(i < spec_setup().len() + spec_observation().len());
                assert((spec_setup() + spec_observation())[i as int].name == name@);
            }
            return true;
        }
        i = i + 1;
    }
    proof {
        assert forall|j: int| 0 <= j < spec_setup().len() + spec_observation().len()
            implies (#[trigger] (spec_setup() + spec_observation())[j]).name != name@ by {
            assert(surfaces(entries@)[j] == entries@[j]@);
        }
    }
    false
}

proof fn lemma_names_revealed()
    ensures
        "decimals"@ != "transfer"@,
        "decimals"@ != "approve"@,
        "decimals"@ != "allowance"@,
        "decimals"@ != "balance"@,
        "decimals"@ != "transfer_from"@,
        "decimals"@ != "burn"@,
        "decimals"@ != "burn_from"@,
        "decimals"@ != "name"@,
        "decimals"@ != "symbol"@,
{
    reveal_strlit("decimals");
    reveal_strlit("transfer");
    reveal_strlit("approve");
    reveal_strlit("allowance");
    reveal_strlit("balance");
    reveal_strlit("transfer_from");
    reveal_strlit("burn");
    reveal_strlit("burn_from");
    reveal_strlit("name");
    reveal_strlit("symbol");
    assert("decimals"@[0] != "transfer"@[0]);
    assert("decimals"@[0] != "approve"@[0]);
    assert("decimals"@[0] != "allowance"@[0]);
    assert("decimals"@[0] != "balance"@[0]);
    assert("decimals"@[0] != "transfer_from"@[0]);
    assert("decimals"@[0] != "burn"@[0]);
    assert("decimals"@[0] != "burn_from"@[0]);
    assert("decimals"@[0] != "name"@[0]);
    assert("decimals"@[0] != "symbol"@[0]);
}

/// The standard surface without `decimals`: the nine other methods, in order.
proof fn lemma_standard_without_decimals()
    ensures
        spec_keep(spec_standard(), false) == spec_standard().remove(7),
        spec_keep(spec_standard(), true) == spec_standard(),
{
    lemma_names_revealed();
    let s = spec_standard();
    reveal_with_fuel(Seq::<_>::filter, 11);
    assert(s.take(0).filter(|e: Surface| keeps(false, e)) =~= seq![]);
    assert(spec_keep(s, false) =~= s.remove(7));
    assert(spec_keep(s, true) =~= s);
}

/// Only the fixture whose defect is a missing `decimals` publishes a surface without
/// it; every other fixture publishes `decimals`.
pub proof fn law_only_missing_decimals_omits_decimals(defect: Defect)
    ensures
        (exists|i: int| 0 <= i < spec_declared(defect).len()
            && (#[trigger] spec_declared(defect)[i]).name == "decimals"@)
            <==> defect.spec_exposes_decimals(),
{
    lemma_standard_without_decimals();
    lemma_names_revealed();
    let d = spec_declared(defect);
    if defect.spec_exposes_decimals() {
        assert(d[7] == spec_standard()[7]);
    } else {
        reveal_strlit("decimals");
        reveal_strlit("fixture_mint");
        reveal_strlit("fixture_approve");
        assert(d =~= spec_standard().remove(7) + spec_setup());
        assert forall|i: int| 0 <= i < d.len() implies (#[trigger] d[i]).name != "decimals"@ by {
            if i < 9 {
                assert(d[i] == spec_standard().remove(7)[i]);
            } else {
                assert(d[i] == spec_setup()[i - 9]);
                assert("decimals"@[0] != "fixture_mint"@[0]);
                assert("decimals"@[0] != "fixture_approve"@[0]);
            }
        }
    }
}

/// Every fixture publishes the whole standard, `decimals` aside for the fixture whose
/// defect is its absence, so a fixture's defect is its only difference.
pub proof fn law_every_fixture_publishes_the_standard(defect: Defect, i: int)
    requires
        0 <= i < spec_standard().len(),
        keeps(defect.spec_exposes_decimals(), spec_standard()[i]),
    ensures
        spec_declared(defect).contains(spec_standard()[i]),
        spec_token_methods(defect).contains(spec_standard()[i]),
{
    lemma_standard_without_decimals();
    let d = spec_declared(defect);
    let m = spec_standard()[i];
    if defect.spec_exposes_decimals() {
        assert(d[i] == m);
        assert(spec_token_methods(defect)[i] == m);
    } else {
        let j = if i < 7 { i } else { i - 1 };
        assert(i != 7);
        assert(spec_standard().remove(7)[j] == m);
        assert(d[j] == m);
        assert(spec_token_methods(defect)[j] == m);
    }
}

} // verus!
