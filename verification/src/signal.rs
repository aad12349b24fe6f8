//! Validated descriptions of CAN signals and their builder.

use vstd::prelude::*;
use crate::enum_table::{enum_pairs, has_value, injective, table_clone, table_new, table_get_by_left, table_get_by_right, table_insert, EnumMap};
use crate::error::CANConstructionError;

verus! {

/// The text of an optional `String`.
pub open spec fn opt_text(o: Option<String>) -> Option<Seq<char>> {
    match o {
        Some(s) => Some(s@),
        None => None,
    }
}

/// `2` to the power `n`.
pub open spec fn pow2(n: nat) -> nat
    decreases n,
{
    if n == 0 {
        1
    } else {
        2 * pow2((n - 1) as nat)
    }
}

/// Number of bits in the binary representation of `v` (`0` for `v == 0`).
pub open spec fn bits_needed(v: nat) -> nat
    decreases v,
{
    if v == 0 {
        0
    } else {
        1 + bits_needed(v / 2)
    }
}

/// `bits_needed(v)` bits hold `v`, and no fewer do.
pub proof fn lemma_bits_needed(v: nat)
    ensures
        v < pow2(bits_needed(v)),
        v > 0 ==> pow2((bits_needed(v) - 1) as nat) <= v,
    decreases v,
{
    if v > 0 {
        lemma_bits_needed(v / 2);
    }
}

/// A value below `2^k` needs at most `k` bits.
pub proof fn lemma_bits_needed_bound(v: nat, k: nat)
    requires
        v < pow2(k),
    ensures
        bits_needed(v) <= k,
    decreases v,
{
    if v > 0 {
        assert(k > 0);
        lemma_bits_needed_bound(v / 2, (k - 1) as nat);
    }
}

/// `pow2` is monotonic.
pub proof fn lemma_pow2_mono(a: nat, b: nat)
    requires
        a <= b,
    ensures
        pow2(a) <= pow2(b),
    decreases b,
{
    if a < b {
        lemma_pow2_mono(a, (b - 1) as nat);
    }
}

/// `pow2(64)` is the number of `u64` values.
pub proof fn lemma_pow2_64()
    ensures
        pow2(64) == 0x1_0000_0000_0000_0000,
{
    reveal_with_fuel(pow2, 65);
}

/// Minimum width able to hold the highest enumerated value (`0` when there is none).
pub open spec fn min_width_for(highest: Option<u64>) -> nat {
    match highest {
        Some(h) => bits_needed(h as nat),
        None => 0,
    }
}

/// A validated description of a CAN signal.
pub struct CANSignal {
    /// Name of this signal.
    pub name: String,
    /// Width of this signal in bits.
    pub width: u32,
    /// Description for this signal.
    pub description: Option<String>,
    /// Whether the signal is transmitted as twos-complement.
    pub twos_complement: bool,
    /// Numerical offset for this signal, as the decimal text of the number.
    pub offset: Option<String>,
    /// Numerical scale for this signal, as the decimal text of the number.
    pub scale: Option<String>,
    /// Bijective (bidirectional) map of enumerated values for this signal.
    pub enumerated_values: EnumMap,
}

/// Mathematical model of a [`CANSignal`].
pub struct SignalView {
    pub name: Seq<char>,
    pub width: u32,
    pub description: Option<Seq<char>>,
    pub twos_complement: bool,
    pub offset: Option<Seq<char>>,
    pub scale: Option<Seq<char>>,
    pub values: Map<Seq<char>, u64>,
}

impl View for CANSignal {
    type V = SignalView;

    open spec fn view(&self) -> SignalView {
        SignalView {
            name: self.name@,
            width: self.width,
            description: opt_text(self.description),
            twos_complement: self.twos_complement,
            offset: opt_text(self.offset),
            scale: opt_text(self.scale),
            values: enum_pairs(self.enumerated_values),
        }
    }
}

fn clone_opt_string(o: &Option<String>) -> (r: Option<String>)
    ensures
        opt_text(r) == opt_text(*o),
{
    match o {
        Some(s) => Some(s.clone()),
        None => None,
    }
}

impl CANSignal {
    /// Get a [builder](CANSignalBuilder).
    pub fn builder() -> (b: CANSignalBuilder)
        ensures
            b@ == SignalBuilderView::empty(),
            b@.wf(),
    {
        CANSignalBuilder::new()
    }

    /// A copy of this signal.
    pub fn copy(&self) -> (r: CANSignal)
        ensures
            r@ == self@,
    {
        CANSignal {
            name: self.name.clone(),
            width: self.width,
            description: clone_opt_string(&self.description),
            twos_complement: self.twos_complement,
            offset: clone_opt_string(&self.offset),
            scale: clone_opt_string(&self.scale),
            enumerated_values: table_clone(&self.enumerated_values),
        }
    }

    /// A copy of this signal under another name.
    pub fn renamed(&self, name: String) -> (r: CANSignal)
        ensures
            r@ == (SignalView { name: name@, ..self@ }),
    {
        CANSignal {
            name,
            width: self.width,
            description: clone_opt_string(&self.description),
            twos_complement: self.twos_complement,
            offset: clone_opt_string(&self.offset),
            scale: clone_opt_string(&self.scale),
            enumerated_values: table_clone(&self.enumerated_values),
        }
    }
}

/// Builder of a [`CANSignal`].
pub struct CANSignalBuilder {
    name: Option<String>,
    width: Option<u32>,
    description: Option<Option<String>>,
    twos_complement: Option<bool>,
    offset: Option<Option<String>>,
    scale: Option<Option<String>>,
    enumerated_values: EnumMap,
    highest_enumerated_value: Option<u64>,
}

/// Mathematical model of a [`CANSignalBuilder`]: what each setter has set so far.
pub struct SignalBuilderView {
    pub name: Option<Seq<char>>,
    pub width: Option<u32>,
    pub description: Option<Option<Seq<char>>>,
    pub twos_complement: Option<bool>,
    pub offset: Option<Option<Seq<char>>>,
    pub scale: Option<Option<Seq<char>>>,
    pub values: Map<Seq<char>, u64>,
    pub highest: Option<u64>,
}

impl SignalBuilderView {
    /// The model of a builder with nothing set.
    pub open spec fn empty() -> SignalBuilderView {
        SignalBuilderView {
            name: None,
            width: None,
            description: None,
            twos_complement: None,
            offset: None,
            scale: None,
            values: Map::empty(),
            highest: None,
        }
    }

    /// The highest enumerated value is the largest value of the table, and the
    /// table names each value at most once.
    pub open spec fn wf(self) -> bool {
        &&& self.values.dom().finite()
        &&& injective(self.values)
        &&& match self.highest {
            None => self.values.dom() == Set::<Seq<char>>::empty(),
            Some(h) => has_value(self.values, h) && forall|k: Seq<char>|
                self.values.dom().contains(k) ==> #[trigger] self.values[k] <= h,
        }
    }

    /// The signal that `build` makes from a builder whose name and width are set.
    pub open spec fn built(self) -> SignalView {
        SignalView {
            name: self.name.unwrap(),
            width: self.width.unwrap(),
            description: match self.description {
                Some(d) => d,
                None => None,
            },
            twos_complement: match self.twos_complement {
                Some(t) => t,
                None => false,
            },
            offset: match self.offset {
                Some(o) => o,
                None => None,
            },
            scale: match self.scale {
                Some(s) => s,
                None => None,
            },
            values: self.values,
        }
    }

    /// The raw value that `add_enumerated_value_inferred` picks: one above the
    /// highest value so far, or `0` for the first one.
    pub open spec fn next_inferred_value(self) -> int {
        match self.highest {
            Some(h) => h + 1,
            None => 0,
        }
    }
}

impl View for CANSignalBuilder {
    type V = SignalBuilderView;

    closed spec fn view(&self) -> SignalBuilderView {
        SignalBuilderView {
            name: opt_text(self.name),
            width: self.width,
            description: match self.description {
                Some(d) => Some(opt_text(d)),
                None => None,
            },
            twos_complement: self.twos_complement,
            offset: match self.offset {
                Some(d) => Some(opt_text(d)),
                None => None,
            },
            scale: match self.scale {
                Some(d) => Some(opt_text(d)),
                None => None,
            },
            values: enum_pairs(self.enumerated_values),
            highest: self.highest_enumerated_value,
        }
    }
}

impl CANSignalBuilder {
    #[verifier::type_invariant]
    spec fn inv(self) -> bool {
        self@.wf()
    }

    /// A builder with nothing set.
    pub fn new() -> (b: CANSignalBuilder)
        ensures
            b@ == SignalBuilderView::empty(),
            b@.wf(),
    {
        let b = CANSignalBuilder {
            name: None,
            width: None,
            description: None,
            twos_complement: None,
            offset: None,
            scale: None,
            enumerated_values: table_new(),
            highest_enumerated_value: None,
        };
        assert(b@.values.dom() =~= Set::<Seq<char>>::empty());
        b
    }

    /// Set the signal's name.
    pub fn name(self, name: &str) -> (b: CANSignalBuilder)
        ensures
            b@ == (SignalBuilderView { name: Some(name@), ..self@ }),
    {
        proof {
            use_type_invariant(&self);
        }
        CANSignalBuilder { name: Some(String::from_str(name)), ..self }
    }

    /// Set the signal's width in bits.
    pub fn width(self, width: u32) -> (b: CANSignalBuilder)
        ensures
            b@ == (SignalBuilderView { width: Some(width), ..self@ }),
    {
        proof {
            use_type_invariant(&self);
        }
        CANSignalBuilder { width: Some(width), ..self }
    }

    /// Set the signal's description.
    pub fn description(self, description: Option<String>) -> (b: CANSignalBuilder)
        ensures
            b@ == (SignalBuilderView { description: Some(opt_text(description)), ..self@ }),
    {
        proof {
            use_type_invariant(&self);
        }
        CANSignalBuilder { description: Some(description), ..self }
    }

    /// Set whether the signal is twos-complement.
    pub fn twos_complement(self, twos_complement: bool) -> (b: CANSignalBuilder)
        ensures
            b@ == (SignalBuilderView { twos_complement: Some(twos_complement), ..self@ }),
    {
        proof {
            use_type_invariant(&self);
        }
        CANSignalBuilder { twos_complement: Some(twos_complement), ..self }
    }

    /// Set the signal's offset (decimal text of the number).
    pub fn offset(self, offset: Option<String>) -> (b: CANSignalBuilder)
        ensures
            b@ == (SignalBuilderView { offset: Some(opt_text(offset)), ..self@ }),
    {
        proof {
            use_type_invariant(&self);
        }
        CANSignalBuilder { offset: Some(offset), ..self }
    }

    /// Set the signal's scale (decimal text of the number).
    pub fn scale(self, scale: Option<String>) -> (b: CANSignalBuilder)
        ensures
            b@ == (SignalBuilderView { scale: Some(opt_text(scale)), ..self@ }),
    {
        proof {
            use_type_invariant(&self);
        }
        CANSignalBuilder { scale: Some(scale), ..self }
    }

    /// Make a [`CANSignal`] from this builder.
    ///
    /// The name and the width must have been set (else
    /// [`UninitializedFieldError`](CANConstructionError::UninitializedFieldError)
    /// names the first missing one), and the width must not be zero
    /// ([`SignalHasZeroWidth`](CANConstructionError::SignalHasZeroWidth)).
    pub fn build(self) -> (r: Result<CANSignal, CANConstructionError>)
        ensures
            self@.name is None ==> (r matches Err(CANConstructionError::UninitializedFieldError(f))
                && f@ == "name"@),
            self@.name is Some && self@.width is None ==> (r matches Err(
                CANConstructionError::UninitializedFieldError(f),
            ) && f@ == "width"@),
            self@.name is Some && self@.width == Some(0u32) ==> (r matches Err(
                CANConstructionError::SignalHasZeroWidth(n),
            ) && n@ == self@.name.unwrap()),
            self@.name is Some && self@.width is Some && self@.width != Some(0u32) ==> (r matches Ok(
                s,
            ) && s@ == self@.built()),
    {
        proof {
            use_type_invariant(&self);
        }
        let CANSignalBuilder {
            name,
            width,
            description,
            twos_complement,
            offset,
            scale,
            enumerated_values,
            highest_enumerated_value: _,
        } = self;
        let name = match name {
            Some(n) => n,
            None => {
                return Err(CANConstructionError::UninitializedFieldError(String::from_str("name")));
            },
        };
        let width = match width {
            Some(w) => w,
            None => {
                return Err(
                    CANConstructionError::UninitializedFieldError(String::from_str("width")),
                );
            },
        };
        if width == 0 {
            return Err(CANConstructionError::SignalHasZeroWidth(name));
        }
        Ok(
            CANSignal {
                name,
                width,
                description: match description {
                    Some(d) => d,
                    None => None,
                },
                twos_complement: match twos_complement {
                    Some(t) => t,
                    None => false,
                },
                offset: match offset {
                    Some(o) => o,
                    None => None,
                },
                scale: match scale {
                    Some(s) => s,
                    None => None,
                },
                enumerated_values,
            },
        )
    }

    /// Infer the width of this signal from the enumerated values: the fewest bits
    /// that hold the highest enumerated value. A width already set is kept.
    /// Inference fails ([`SignalWidthInferenceFailed`](CANConstructionError::SignalWidthInferenceFailed))
    /// when that count is zero, that is with no enumerated value or only the value `0`.
    pub fn infer_width(self) -> (r: Result<CANSignalBuilder, CANConstructionError>)
        requires
            self@.width is None ==> (self@.highest matches Some(h) ==> h < 0x8000_0000_0000_0000u64),
        ensures
            self@.width is Some ==> (r matches Ok(b) && b@ == self@),
            self@.width is None && min_width_for(self@.highest) == 0 ==> (r matches Err(
                CANConstructionError::SignalWidthInferenceFailed(n),
            ) && opt_text(n) == self@.name),
            self@.width is None && min_width_for(self@.highest) != 0 ==> (r matches Ok(b) && b@ == (
            SignalBuilderView { width: Some(min_width_for(self@.highest) as u32), ..self@ })),
    {
        proof {
            use_type_invariant(&self);
        }
        if self.width.is_some() {
            return Ok(self);
        }
        let min_width = self.min_width_for_enumerated_values();
        if min_width == 0 {
            Err(CANConstructionError::SignalWidthInferenceFailed(self.name))
        } else {
            Ok(CANSignalBuilder { width: Some(min_width), ..self })
        }
    }

    /// Infer the width of the signal, but return a
    /// [`SignalWidthAlreadySpecified`](CANConstructionError::SignalWidthAlreadySpecified)
    /// error if the signal width was already specified.
    pub fn infer_width_strict(self) -> (r: Result<CANSignalBuilder, CANConstructionError>)
        requires
            self@.width is None ==> (self@.highest matches Some(h) ==> h < 0x8000_0000_0000_0000u64),
        ensures
            self@.width is Some ==> (r matches Err(
                CANConstructionError::SignalWidthAlreadySpecified(n),
            ) && opt_text(n) == self@.name),
            self@.width is None && min_width_for(self@.highest) == 0 ==> (r matches Err(
                CANConstructionError::SignalWidthInferenceFailed(n),
            ) && opt_text(n) == self@.name),
            self@.width is None && min_width_for(self@.highest) != 0 ==> (r matches Ok(b) && b@ == (
            SignalBuilderView { width: Some(min_width_for(self@.highest) as u32), ..self@ })),
    {
        if self.width.is_some() {
            return Err(CANConstructionError::SignalWidthAlreadySpecified(self.name));
        }
        self.infer_width()
    }

    /// Add an enumerated value name and automatically choose an available
    /// raw value for it: one above the highest raw value so far, or `0`.
    pub fn add_enumerated_value_inferred(self, name: &str) -> (r: Result<
        CANSignalBuilder,
        CANConstructionError,
    >)
        requires
            self@.highest != Some(u64::MAX),
        ensures
            r matches Ok(b) ==> b@.wf(),
            self@.values.dom().contains(name@) ==> (r matches Err(
                CANConstructionError::EnumeratedValueNameAlreadyExists(n, v),
            ) && n@ == name@ && v == self@.values[name@]),
            !self@.values.dom().contains(name@) ==> (r matches Ok(b) && b@ == (SignalBuilderView {
                values: self@.values.insert(name@, self@.next_inferred_value() as u64),
                highest: Some(self@.next_inferred_value() as u64),
                ..self@
            })),
    {
        proof {
            use_type_invariant(&self);
        }
        let val = match self.highest_enumerated_value {
            Some(v) => v + 1,
            None => 0,
        };
        let r = self.add_enumerated_value(name, val);
        proof {
            lemma_next_inferred_is_free(self@);
        }
        r
    }

    /// Add an enumerated value name with a given raw value.
    ///
    /// Names and raw values must both be new: otherwise
    /// [`EnumeratedValueNameAlreadyExists`](CANConstructionError::EnumeratedValueNameAlreadyExists)
    /// (checked first) or
    /// [`EnumeratedValueValueAlreadyNamed`](CANConstructionError::EnumeratedValueValueAlreadyNamed).
    pub fn add_enumerated_value(self, name: &str, val: u64) -> (r: Result<
        CANSignalBuilder,
        CANConstructionError,
    >)
        ensures
            r matches Ok(b) ==> b@.wf(),
            self@.values.dom().contains(name@) ==> (r matches Err(
                CANConstructionError::EnumeratedValueNameAlreadyExists(n, v),
            ) && n@ == name@ && v == self@.values[name@]),
            !self@.values.dom().contains(name@) && has_value(self@.values, val) ==> (r matches Err(
                CANConstructionError::EnumeratedValueValueAlreadyNamed(n, v),
            ) && v == val && self@.values.dom().contains(n@) && self@.values[n@] == val),
            !self@.values.dom().contains(name@) && !has_value(self@.values, val) ==> (r matches Ok(
                b,
            ) && b@ == (SignalBuilderView {
                values: self@.values.insert(name@, val),
                highest: Some(
                    match self@.highest {
                        Some(h) => if h < val {
                            val
                        } else {
                            h
                        },
                        None => val,
                    },
                ),
                ..self@
            })),
    {
        proof {
            use_type_invariant(&self);
        }
        let name = String::from_str(name);
        if let Some(v) = table_get_by_left(&self.enumerated_values, &name) {
            return Err(CANConstructionError::EnumeratedValueNameAlreadyExists(name, v));
        }
        if let Some(n) = table_get_by_right(&self.enumerated_values, val) {
            return Err(CANConstructionError::EnumeratedValueValueAlreadyNamed(n, val));
        }
        let highest = match self.highest_enumerated_value {
            Some(h) => if h < val {
                val
            } else {
                h
            },
            None => val,
        };
        let ghost old_values = self@.values;
        let ghost old_highest = self@.highest;
        let CANSignalBuilder {
            name: bname,
            width,
            description,
            twos_complement,
            offset,
            scale,
            mut enumerated_values,
            highest_enumerated_value: _,
        } = self;
        let ghost nm = name@;
        table_insert(&mut enumerated_values, name, val);
        proof {
            let nv = old_values.insert(nm, val);
            assert(nv.dom().finite());
            assert(injective(nv)) by {
                assert forall|a: Seq<char>, b: Seq<char>|
                    #![trigger nv[a], nv[b]]
                    nv.dom().contains(a) && nv.dom().contains(b) && nv[a] == nv[b] implies a == b by {
                    if a != nm && b != nm {
                        assert(old_values[a] == old_values[b]);
                    } else if a == nm && b != nm {
                        assert(old_values[b] == val);
                    } else if a != nm && b == nm {
                        assert(old_values[a] == val);
                    }
                }
            }
            assert(nv[nm] == val);
            assert(has_value(nv, highest)) by {
                if highest != val {
                    let k = choose|k: Seq<char>| old_values.dom().contains(k) && #[trigger] old_values[k] == old_highest.unwrap();
                    assert(k != nm);
                    assert(nv[k] == highest);
                }
            }
            assert forall|k: Seq<char>| nv.dom().contains(k) implies #[trigger] nv[k] <= highest by {
                if k != nm {
                    assert(old_values[k] == nv[k]);
                }
            }
        }
        let b = CANSignalBuilder {
            name: bname,
            width,
            description,
            twos_complement,
            offset,
            scale,
            enumerated_values,
            highest_enumerated_value: Some(highest),
        };
        Ok(b)
    }

    /// The highest enumerated value so far, if any.
    pub(crate) fn highest_value(&self) -> (r: Option<u64>)
        ensures
            r == self@.highest,
    {
        self.highest_enumerated_value
    }

    /// The fewest bits that hold the highest enumerated value (`0` when there is none).
    fn min_width_for_enumerated_values(&self) -> (w: u32)
        requires
            self@.highest matches Some(h) ==> h < 0x8000_0000_0000_0000u64,
        ensures
            w == min_width_for(self@.highest),
    {
        match self.highest_enumerated_value {
            Some(v) => bit_length(v),
            None => 0,
        }
    }
}


/// The raw value that inference picks next is not named yet: it lies above
/// every value of the table.
pub proof fn lemma_next_inferred_is_free(b: SignalBuilderView)
    requires
        b.wf(),
        b.highest != Some(u64::MAX),
    ensures
        !has_value(b.values, b.next_inferred_value() as u64),
{
    let val = b.next_inferred_value() as u64;
    if has_value(b.values, val) {
        let k = choose|k: Seq<char>| b.values.dom().contains(k) && #[trigger] b.values[k] == val;
        assert(b.values[k] <= b.highest.unwrap());
    }
}

/// Width inference picks the fewest bits that hold every enumerated value:
/// each value fits in the inferred width, and some value does not fit in one bit less.
pub proof fn law_inferred_width_is_minimal(b: SignalBuilderView)
    requires
        b.wf(),
        min_width_for(b.highest) > 0,
    ensures
        forall|k: Seq<char>|
            b.values.dom().contains(k) ==> (#[trigger] b.values[k] as nat) < pow2(
                min_width_for(b.highest),
            ),
        exists|k: Seq<char>|
            b.values.dom().contains(k) && pow2((min_width_for(b.highest) - 1) as nat) <= (
            #[trigger] b.values[k] as nat),
{
    let h = b.highest.unwrap();
    lemma_bits_needed(h as nat);
    assert forall|k: Seq<char>| b.values.dom().contains(k) implies (#[trigger] b.values[k] as nat) < pow2(
        min_width_for(b.highest),
    ) by {
        assert(b.values[k] <= h);
    }
    let k = choose|k: Seq<char>| b.values.dom().contains(k) && #[trigger] b.values[k] == h;
    assert(b.values.dom().contains(k) && pow2((min_width_for(b.highest) - 1) as nat) <= (b.values[k] as nat));
}

/// Number of bits in the binary representation of `v`.
pub fn bit_length(v: u64) -> (r: u32)
    ensures
        r == bits_needed(v as nat),
        r <= 64,
{
    proof {
        lemma_pow2_64();
        lemma_bits_needed_bound(v as nat, 64);
    }
    let mut x = v;
    let mut n: u32 = 0;
    while x != 0
        invariant
            bits_needed(v as nat) == n + bits_needed(x as nat),
            bits_needed(v as nat) <= 64,
        decreases x,
    {
        x = x / 2;
        n = n + 1;
    }
    n
}

} // verus!
