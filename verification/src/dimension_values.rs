use vstd::prelude::*;
use crate::contract::DimensionView;
use crate::points::{
    compose_index, dimension_kind, point_digits, radix_product, dimension_kind_of, matching_algorithm_named, parse_matching_algorithm,
    parse_traffic_profile, traffic_profile_named, DimensionKind,
};
use crate::text::{owned, push_str};

verus! {

/// A dimension value, by what the checks of a scenario parameter read from it.
#[derive(Debug, Clone, PartialEq, Eq)]
pub enum DimensionValue {
    Null,
    Bool(bool),
    /// A non-negative integer that fits a `u64`.
    Unsigned(u64),
    /// A negative integer that fits an `i64`.
    Negative(i64),
    /// Any other number: one written with a fraction or an exponent.
    OtherNumber,
    Text(String),
    /// An array or an object.
    Composite,
}

/// A dimension with its values, in the order they were listed.
pub struct TypedDimension {
    pub name: String,
    pub values: Vec<DimensionValue>,
}

/// A typed dimension as a value: its name and its values.
pub type TypedDimensionView = (Seq<char>, Seq<DimensionValue>);

impl View for TypedDimension {
    type V = TypedDimensionView;

    open spec fn view(&self) -> TypedDimensionView {
        (self.name@, self.values@)
    }
}

pub open spec fn typed_views(dims: Seq<TypedDimension>) -> Seq<TypedDimensionView> {
    dims.map_values(|d: TypedDimension| d@)
}

pub open spec fn is_number(v: DimensionValue) -> bool {
    v is Unsigned || v is Negative || v is OtherNumber
}

pub open spec fn must_be(name: Seq<char>, what: Seq<char>) -> Seq<char> {
    "Dimension '"@ + name + "' must be "@ + what
}

pub open spec fn too_large(name: Seq<char>) -> Seq<char> {
    "Dimension '"@ + name + "' is too large"@
}

/// The problem with `v` as the value of the scenario parameter that dimension `name` of
/// kind `kind` sets, if there is one.
pub open spec fn value_error(kind: DimensionKind, name: Seq<char>, v: DimensionValue) -> Option<
    Seq<char>,
> {
    match kind {
        DimensionKind::NumRiders | DimensionKind::NumDrivers => match v {
            DimensionValue::Unsigned(u) => if u > usize::MAX {
                Some(too_large(name))
            } else {
                None
            },
            _ => Some(must_be(name, "an unsigned integer"@)),
        },
        DimensionKind::MatchRadius | DimensionKind::SurgeRadiusK => match v {
            DimensionValue::Unsigned(u) => if u > u32::MAX {
                Some(too_large(name))
            } else {
                None
            },
            _ => Some(must_be(name, "an unsigned integer"@)),
        },
        DimensionKind::CommissionRate | DimensionKind::BaseFare | DimensionKind::PerKmRate
        | DimensionKind::SurgeMaxMultiplier | DimensionKind::EtaWeight => if is_number(v) {
            None
        } else {
            Some(must_be(name, "numeric"@))
        },
        DimensionKind::BaseSpeedKmh => if v is Null || is_number(v) {
            None
        } else {
            Some(must_be(name, "numeric"@))
        },
        DimensionKind::SurgeEnabled | DimensionKind::BatchMatchingEnabled
        | DimensionKind::DynamicCongestionEnabled => if v is Bool {
            None
        } else {
            Some(must_be(name, "boolean"@))
        },
        DimensionKind::EpochMs => match v {
            DimensionValue::Null | DimensionValue::Negative(_) => None,
            DimensionValue::Unsigned(u) => if u <= i64::MAX {
                None
            } else {
                Some(must_be(name, "a signed integer"@))
            },
            _ => Some(must_be(name, "a signed integer"@)),
        },
        DimensionKind::SimulationDurationHours => if v is Null || v is Unsigned {
            None
        } else {
            Some(must_be(name, "an unsigned integer"@))
        },
        DimensionKind::BatchIntervalSecs => if v is Unsigned {
            None
        } else {
            Some(must_be(name, "an unsigned integer"@))
        },
        DimensionKind::MatchingAlgorithmType => match v {
            DimensionValue::Text(s) => if matching_algorithm_named(s@) is Some {
                None
            } else {
                Some(
                    "Unsupported matching_algorithm_type '"@ + s@
                        + "' (expected simple, cost_based, or hungarian)"@,
                )
            },
            _ => Some("Dimension 'matching_algorithm_type' must be a string"@),
        },
        DimensionKind::TrafficProfile => match v {
            DimensionValue::Text(s) => if traffic_profile_named(s@) is Some {
                None
            } else {
                Some("Unsupported traffic_profile '"@ + s@ + "' (expected none or berlin)"@)
            },
            _ => Some("Dimension 'traffic_profile' must be a string"@),
        },
    }
}

fn must_be_message(name: &str, what: &str) -> (m: String)
    ensures
        m@ == must_be(name@, what@),
{
    let mut m = owned("Dimension '");
    push_str(&mut m, name);
    push_str(&mut m, "' must be ");
    push_str(&mut m, what);
    m
}

fn too_large_message(name: &str) -> (m: String)
    ensures
        m@ == too_large(name@),
{
    let mut m = owned("Dimension '");
    push_str(&mut m, name);
    push_str(&mut m, "' is too large");
    m
}

/// Checks `v` as the value of the scenario parameter that dimension `name` of kind
/// `kind` sets.
pub fn check_dimension_value(kind: DimensionKind, name: &str, v: &DimensionValue) -> (res: Result<
    (),
    String,
>)
    ensures
        match res {
            Ok(()) => value_error(kind, name@, *v) is None,
            Err(e) => value_error(kind, name@, *v) == Some(e@),
        },
{
    match kind {
        DimensionKind::NumRiders | DimensionKind::NumDrivers => match v {
            DimensionValue::Unsigned(u) => if *u > usize::MAX as u64 {
                Err(too_large_message(name))
            } else {
                Ok(())
            },
            _ => Err(must_be_message(name, "an unsigned integer")),
        },
        DimensionKind::MatchRadius | DimensionKind::SurgeRadiusK => match v {
            DimensionValue::Unsigned(u) => if *u > 0xffff_ffffu64 {
                Err(too_large_message(name))
            } else {
                Ok(())
            },
            _ => Err(must_be_message(name, "an unsigned integer")),
        },
        DimensionKind::CommissionRate | DimensionKind::BaseFare | DimensionKind::PerKmRate
        | DimensionKind::SurgeMaxMultiplier | DimensionKind::EtaWeight => match v {
            DimensionValue::Unsigned(_) | DimensionValue::Negative(_)
            | DimensionValue::OtherNumber => Ok(()),
            _ => Err(must_be_message(name, "numeric")),
        },
        DimensionKind::BaseSpeedKmh => match v {
            DimensionValue::Null | DimensionValue::Unsigned(_) | DimensionValue::Negative(_)
            | DimensionValue::OtherNumber => Ok(()),
            _ => Err(must_be_message(name, "numeric")),
        },
        DimensionKind::SurgeEnabled | DimensionKind::BatchMatchingEnabled
        | DimensionKind::DynamicCongestionEnabled => match v {
            DimensionValue::Bool(_) => Ok(()),
            _ => Err(must_be_message(name, "boolean")),
        },
        DimensionKind::EpochMs => match v {
            DimensionValue::Null | DimensionValue::Negative(_) => Ok(()),
            DimensionValue::Unsigned(u) => if *u <= 0x7fff_ffff_ffff_ffffu64 {
                Ok(())
            } else {
                Err(must_be_message(name, "a signed integer"))
            },
            _ => Err(must_be_message(name, "a signed integer")),
        },
        DimensionKind::SimulationDurationHours => match v {
            DimensionValue::Null | DimensionValue::Unsigned(_) => Ok(()),
            _ => Err(must_be_message(name, "an unsigned integer")),
        },
        DimensionKind::BatchIntervalSecs => match v {
            DimensionValue::Unsigned(_) => Ok(()),
            _ => Err(must_be_message(name, "an unsigned integer")),
        },
        DimensionKind::MatchingAlgorithmType => match v {
            DimensionValue::Text(s) => match parse_matching_algorithm(s.as_str()) {
                Ok(_) => Ok(()),
                Err(e) => Err(e),
            },
            _ => Err(owned("Dimension 'matching_algorithm_type' must be a string")),
        },
        DimensionKind::TrafficProfile => match v {
            DimensionValue::Text(s) => match parse_traffic_profile(s.as_str()) {
                Ok(_) => Ok(()),
                Err(e) => Err(e),
            },
            _ => Err(owned("Dimension 'traffic_profile' must be a string")),
        },
    }
}

/// The parameters that take any number (read as a float).
pub open spec fn takes_any_number(kind: DimensionKind) -> bool {
    kind == DimensionKind::CommissionRate || kind == DimensionKind::BaseFare || kind
        == DimensionKind::PerKmRate || kind == DimensionKind::SurgeMaxMultiplier || kind
        == DimensionKind::EtaWeight || kind == DimensionKind::BaseSpeedKmh
}

/// A numeric parameter takes every JSON number, integers as well as numbers with a
/// fraction, and refuses a boolean, a string, an array or an object as not numeric; only
/// the base speed may also be null.
pub proof fn law_numeric_parameters_take_every_number(kind: DimensionKind, name: Seq<char>, v: DimensionValue)
    requires
        takes_any_number(kind),
    ensures
        (v matches DimensionValue::Unsigned(_) || v matches DimensionValue::Negative(_) || v
            == DimensionValue::OtherNumber) ==> value_error(kind, name, v) is None,
        (v matches DimensionValue::Bool(_) || v matches DimensionValue::Text(_) || v
            == DimensionValue::Composite) ==> value_error(kind, name, v) == Some(
            "Dimension '"@ + name + "' must be numeric"@,
        ),
        v == DimensionValue::Null ==> (value_error(kind, name, v) is None <==> kind
            == DimensionKind::BaseSpeedKmh),
{
    reveal_strlit("' must be ");
    reveal_strlit("numeric");
    reveal_strlit("' must be numeric");
    assert(must_be(name, "numeric"@) =~= "Dimension '"@ + name + "' must be numeric"@);
}

/// The parameters read as unsigned integers.
pub open spec fn takes_unsigned(kind: DimensionKind) -> bool {
    kind == DimensionKind::NumRiders || kind == DimensionKind::NumDrivers || kind
        == DimensionKind::MatchRadius || kind == DimensionKind::SurgeRadiusK || kind
        == DimensionKind::BatchIntervalSecs || kind == DimensionKind::SimulationDurationHours
}

/// A count, a radius, an interval or a duration takes a non-negative integer up to the
/// width of the field it fills (32 bits for the radii, the machine word for the rider
/// and driver counts, 64 bits for the rest), and refuses a larger one as too large; a
/// negative number, a number with a fraction, a boolean, a string, an array or an
/// object is not an unsigned integer. Only the duration may be null.
pub proof fn law_unsigned_parameters_take_integers_that_fit(
    kind: DimensionKind,
    name: Seq<char>,
    v: DimensionValue,
)
    requires
        takes_unsigned(kind),
    ensures
        v matches DimensionValue::Unsigned(u) && u <= u32::MAX ==> value_error(kind, name, v) is None,
        v matches DimensionValue::Unsigned(u) && u <= usize::MAX && kind != DimensionKind::MatchRadius
            && kind != DimensionKind::SurgeRadiusK ==> value_error(kind, name, v) is None,
        v matches DimensionValue::Unsigned(u) && u > u32::MAX && (kind == DimensionKind::MatchRadius
            || kind == DimensionKind::SurgeRadiusK) ==> value_error(kind, name, v) == Some(
            "Dimension '"@ + name + "' is too large"@,
        ),
        (kind == DimensionKind::BatchIntervalSecs || kind == DimensionKind::SimulationDurationHours)
            && v is Unsigned ==> value_error(kind, name, v) is None,
        (v matches DimensionValue::Negative(_) || v == DimensionValue::OtherNumber || v matches DimensionValue::Bool(_)
            || v matches DimensionValue::Text(_) || v == DimensionValue::Composite) ==> value_error(
            kind,
            name,
            v,
        ) == Some("Dimension '"@ + name + "' must be an unsigned integer"@),
        v == DimensionValue::Null ==> (value_error(kind, name, v) is None <==> kind
            == DimensionKind::SimulationDurationHours),
{
    reveal_strlit("' must be ");
    reveal_strlit("an unsigned integer");
    reveal_strlit("' must be an unsigned integer");
    assert(must_be(name, "an unsigned integer"@) =~= "Dimension '"@ + name + "' must be an unsigned integer"@);
}

/// A switch takes exactly a boolean.
pub proof fn law_switches_take_booleans(kind: DimensionKind, name: Seq<char>, v: DimensionValue)
    requires
        kind == DimensionKind::SurgeEnabled || kind == DimensionKind::BatchMatchingEnabled || kind
            == DimensionKind::DynamicCongestionEnabled,
    ensures
        v matches DimensionValue::Bool(_) ==> value_error(kind, name, v) is None,
        !(v matches DimensionValue::Bool(_)) ==> value_error(kind, name, v) == Some(
            "Dimension '"@ + name + "' must be boolean"@,
        ),
{
    reveal_strlit("' must be ");
    reveal_strlit("boolean");
    reveal_strlit("' must be boolean");
    assert(must_be(name, "boolean"@) =~= "Dimension '"@ + name + "' must be boolean"@);
}

/// The epoch takes null or any integer that fits 64 signed bits, negative ones
/// included, and nothing else.
pub proof fn law_epoch_takes_signed_integers(name: Seq<char>, v: DimensionValue)
    ensures
        (v == DimensionValue::Null || v matches DimensionValue::Negative(_)) ==> value_error(
            DimensionKind::EpochMs,
            name,
            v,
        ) is None,
        v matches DimensionValue::Unsigned(u) ==> (value_error(DimensionKind::EpochMs, name, v) is None
            <==> u <= i64::MAX),
        (v == DimensionValue::OtherNumber || v matches DimensionValue::Bool(_) || v matches DimensionValue::Text(_)
            || v == DimensionValue::Composite) ==> value_error(DimensionKind::EpochMs, name, v) == Some(
            "Dimension '"@ + name + "' must be a signed integer"@,
        ),
{
    reveal_strlit("' must be ");
    reveal_strlit("a signed integer");
    reveal_strlit("' must be a signed integer");
    assert(must_be(name, "a signed integer"@) =~= "Dimension '"@ + name + "' must be a signed integer"@);
}

/// The matching algorithm and the traffic profile take a string naming one they know
/// (ignoring ASCII case), refuse another string by repeating it, and refuse anything
/// that is not a string.
pub proof fn law_named_parameters_take_known_names(name: Seq<char>, v: DimensionValue)
    ensures
        v matches DimensionValue::Text(s) ==> (value_error(DimensionKind::MatchingAlgorithmType, name, v)
            is None <==> matching_algorithm_named(s@) is Some),
        v matches DimensionValue::Text(s) ==> (value_error(DimensionKind::TrafficProfile, name, v)
            is None <==> traffic_profile_named(s@) is Some),
        !(v matches DimensionValue::Text(_)) ==> value_error(DimensionKind::MatchingAlgorithmType, name, v)
            == Some("Dimension 'matching_algorithm_type' must be a string"@),
        !(v matches DimensionValue::Text(_)) ==> value_error(DimensionKind::TrafficProfile, name, v)
            == Some("Dimension 'traffic_profile' must be a string"@),
{
}

/// The value index of each dimension at point `index`, read as a mixed-radix number
/// whose last dimension varies fastest; or the message of the first problem met walking
/// the dimensions from the last: an empty dimension, a dimension that no scenario
/// parameter answers to, a selected value that its parameter cannot take, or an index
/// at or past the number of points.
pub open spec fn typed_point_digits(dims: Seq<TypedDimensionView>, index: nat) -> Result<
    Seq<nat>,
    Seq<char>,
>
    decreases dims.len(),
{
    if dims.len() == 0 {
        if index == 0 {
            Ok(Seq::empty())
        } else {
            Err("Index exceeds dimension product"@)
        }
    } else {
        let name = dims.last().0;
        let values = dims.last().1;
        let r = values.len();
        if r == 0 {
            Err("Dimension '"@ + name + "' cannot be empty"@)
        } else {
            match dimension_kind_of(name) {
                None => Err("Unsupported dimension '"@ + name + "'"@),
                Some(kind) => match value_error(kind, name, values[(index % r) as int]) {
                    Some(e) => Err(e),
                    None => match typed_point_digits(dims.drop_last(), index / r) {
                        Ok(ds) => Ok(ds.push(index % r)),
                        Err(e) => Err(e),
                    },
                },
            }
        }
    }
}

/// The value index of each dimension (in the order given) at parameter point `index`,
/// each selected value checked against the parameter it sets.
pub fn typed_point_value_indices(dims: &Vec<TypedDimension>, index: usize) -> (res: Result<
    Vec<usize>,
    String,
>)
    ensures
        match res {
            Ok(v) => typed_point_digits(typed_views(dims@), index as nat) == Ok::<
                Seq<nat>,
                Seq<char>,
            >(v@.map_values(|x: usize| x as nat)),
            Err(e) => typed_point_digits(typed_views(dims@), index as nat) == Err::<
                Seq<nat>,
                Seq<char>,
            >(e@),
        },
{
    let n = dims.len();
    let mut digits: Vec<usize> = Vec::new();
    let mut remainder = index;
    let mut k = n;
    let ghost d = typed_views(dims@);
    proof {
        assert(d.take(n as int) =~= d);
        assert(digits@.reverse().map_values(|x: usize| x as nat) =~= Seq::<nat>::empty());
        match typed_point_digits(d, index as nat) {
            Ok(ds) => {
                assert(ds + Seq::<nat>::empty() =~= ds);
            },
            Err(e) => {},
        }
    }
    while k > 0
        invariant
            k <= n == d.len() == dims@.len(),
            d == typed_views(dims@),
            digits@.len() == n - k,
            typed_point_digits(d, index as nat) == match typed_point_digits(
                d.take(k as int),
                remainder as nat,
            ) {
                Ok(ds) => Ok(ds + digits@.reverse().map_values(|x: usize| x as nat)),
                Err(e) => Err::<Seq<nat>, Seq<char>>(e),
            },
        decreases k,
    {
        let dim = &dims[k - 1];
        let radix = dim.values.len();
        let ghost t = d.take(k as int);
        assert(t.last() == d[k - 1]);
        assert(d[k - 1] == dim@);
        assert(t.drop_last() =~= d.take(k - 1));
        if radix == 0 {
            let mut m = owned("Dimension '");
            push_str(&mut m, dim.name.as_str());
            push_str(&mut m, "' cannot be empty");
            return Err(m);
        }
        let kind = match dimension_kind(dim.name.as_str()) {
            Some(kind) => kind,
            None => {
                let mut m = owned("Unsupported dimension '");
                push_str(&mut m, dim.name.as_str());
                push_str(&mut m, "'");
                return Err(m);
            },
        };
        let value_idx = remainder % radix;
        match check_dimension_value(kind, dim.name.as_str(), &dim.values[value_idx]) {
            Ok(()) => {},
            Err(e) => {
                return Err(e);
            },
        }
        let ghost old_digits = digits@;
        digits.push(value_idx);
        proof {
            assert(digits@.reverse() =~= seq![value_idx].add(old_digits.reverse()));
            let ghost f = |x: usize| x as nat;
            assert(digits@.reverse().map_values(f) =~= seq![value_idx as nat].add(
                old_digits.reverse().map_values(f),
            ));
            match typed_point_digits(d.take(k - 1), (remainder / radix) as nat) {
                Ok(ds) => {
                    assert(ds.push((remainder % radix) as nat) + old_digits.reverse().map_values(f)
                        =~= ds + digits@.reverse().map_values(f));
                },
                Err(e) => {},
            }
        }
        remainder = remainder / radix;
        k = k - 1;
    }
    assert(d.take(0) =~= Seq::<TypedDimensionView>::empty());
    if remainder != 0 {
        return Err(owned("Index exceeds dimension product"));
    }
    let mut out: Vec<usize> = Vec::new();
    let mut j = digits.len();
    while j > 0
        invariant
            j <= digits@.len(),
            out@ == digits@.reverse().take((digits@.len() - j) as int),
        decreases j,
    {
        out.push(digits[j - 1]);
        j = j - 1;
        assert(out@ =~= digits@.reverse().take((digits@.len() - j) as int));
    }
    assert(out@ =~= digits@.reverse());
    assert(Seq::<nat>::empty() + digits@.reverse().map_values(|x: usize| x as nat) =~= out@.map_values(
        |x: usize| x as nat,
    ));
    Ok(out)
}

/// Where the values' checks all pass, the selection made with them is the one made from
/// the dimensions' names and sizes alone: the same value index for each dimension.
pub proof fn law_checked_selection_matches_unchecked(
    dims: Seq<DimensionView>,
    typed: Seq<TypedDimensionView>,
    index: nat,
)
    requires
        dims.len() == typed.len(),
        forall|i: int|
            0 <= i < dims.len() ==> dims[i].0 == typed[i].0 && (#[trigger] dims[i]).1.len()
                == typed[i].1.len(),
        typed_point_digits(typed, index) is Ok,
    ensures
        point_digits(dims, index) == typed_point_digits(typed, index),
    decreases dims.len(),
{
    if dims.len() > 0 {
        let r = typed.last().1.len();
        assert(dims.last() == dims[dims.len() - 1]);
        assert(dims.last().0 == typed.last().0 && dims.last().1.len() == r);
        let dd = dims.drop_last();
        let td = typed.drop_last();
        assert forall|i: int| 0 <= i < dd.len() implies dd[i].0 == td[i].0 && (#[trigger] dd[i]).1.len()
            == td[i].1.len() by {
            assert(dd[i] == dims[i] && td[i] == typed[i]);
        }
        law_checked_selection_matches_unchecked(dd, td, index / r);
    }
}

/// The number of values of each typed dimension, in order.
pub open spec fn typed_radices(dims: Seq<TypedDimensionView>) -> Seq<nat> {
    dims.map_values(|d: TypedDimensionView| d.1.len())
}

/// A checked selection names one value of each dimension, every name is one a sweep may
/// vary, every chosen value is one its parameter takes, and the value indices compose
/// back to the point index, the last dimension varying fastest.
pub proof fn law_checked_selection_is_valid_and_composes(dims: Seq<TypedDimensionView>, index: nat)
    ensures
        typed_point_digits(dims, index) matches Ok(ds) ==> {
            &&& ds.len() == dims.len()
            &&& compose_index(typed_radices(dims), ds) == index
            &&& forall|i: int|
                0 <= i < dims.len() ==> #[trigger] ds[i] < dims[i].1.len() && dimension_kind_of(
                    dims[i].0,
                ) is Some && value_error(
                    dimension_kind_of(dims[i].0)->0,
                    dims[i].0,
                    dims[i].1[ds[i] as int],
                ) is None
        },
    decreases dims.len(),
{
    if dims.len() > 0 {
        if let Ok(ds) = typed_point_digits(dims, index) {
            let d = dims.drop_last();
            let r = dims.last().1.len();
            assert(dims.last() == dims[dims.len() - 1]);
            law_checked_selection_is_valid_and_composes(d, index / r);
            let prev = typed_point_digits(d, index / r)->Ok_0;
            assert(ds == prev.push(index % r));
            assert(ds.drop_last() =~= prev);
            assert(typed_radices(dims).drop_last() =~= typed_radices(d));
            assert(typed_radices(dims).last() == r);
            assert((index / r) * r + index % r == index) by (nonlinear_arith)
                requires
                    r > 0,
            ;
            assert forall|i: int| 0 <= i < dims.len() implies #[trigger] ds[i] < dims[i].1.len()
                && dimension_kind_of(dims[i].0) is Some && value_error(
                dimension_kind_of(dims[i].0)->0,
                dims[i].0,
                dims[i].1[ds[i] as int],
            ) is None by {
                if i < d.len() {
                    assert(d[i] == dims[i]);
                    assert(ds[i] == prev[i]);
                }
            }
        }
    }
}

/// Where every dimension is one a sweep may vary, lists at least one value, and lists
/// only values its parameter takes, every point below the number of points is selected.
pub proof fn law_checked_selection_of_valid_dimensions_succeeds(
    dims: Seq<TypedDimensionView>,
    index: nat,
)
    requires
        forall|i: int|
            0 <= i < dims.len() ==> dimension_kind_of(#[trigger] dims[i].0) is Some && dims[i].1.len()
                > 0,
        forall|i: int, j: int|
            0 <= i < dims.len() && 0 <= j < dims[i].1.len() ==> value_error(
                dimension_kind_of(dims[i].0)->0,
                dims[i].0,
                #[trigger] dims[i].1[j],
            ) is None,
        index < radix_product(typed_radices(dims)),
    ensures
        typed_point_digits(dims, index) is Ok,
    decreases dims.len(),
{
    if dims.len() > 0 {
        let d = dims.drop_last();
        let r = dims.last().1.len();
        assert(dims.last() == dims[dims.len() - 1]);
        assert(typed_radices(dims).drop_last() =~= typed_radices(d));
        assert(typed_radices(dims).last() == r);
        let p = radix_product(typed_radices(d));
        assert(index / r < p) by (nonlinear_arith)
            requires
                index < p * r,
                r > 0,
        ;
        assert forall|i: int| 0 <= i < d.len() implies dimension_kind_of(#[trigger] d[i].0) is Some
            && d[i].1.len() > 0 by {
            assert(d[i] == dims[i]);
        }
        assert forall|i: int, j: int| 0 <= i < d.len() && 0 <= j < d[i].1.len() implies value_error(
            dimension_kind_of(d[i].0)->0,
            d[i].0,
            #[trigger] d[i].1[j],
        ) is None by {
            assert(d[i] == dims[i]);
        }
        law_checked_selection_of_valid_dimensions_succeeds(d, index / r);
        let k = (dims.len() - 1) as int;
        assert(value_error(
            dimension_kind_of(dims[k].0)->0,
            dims[k].0,
            dims[k].1[(index % r) as int],
        ) is None);
    }
}

} // verus!
