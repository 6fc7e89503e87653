//! The stat value model: how a stored statistic is represented, how an
//! incoming update is represented, the pure conversion from an incoming
//! update to an atomic field mutation, and the meaning of applying such a
//! mutation to a stored field under the document store's increment rules.

use vstd::prelude::*;

verus! {

// ---------------------------------------------------------------------------
// Samples
// ---------------------------------------------------------------------------

/// One numeric contribution to a stored field. Float payloads are carried
/// as IEEE-754 bit patterns: the core never performs float arithmetic, it
/// only routes payloads, and the edges turn them back into numbers.
#[derive(Clone, Copy, PartialEq, Eq, Structural, Debug)]
pub enum Sample {
    Int(i64),
    Float(u64),
}

// ---------------------------------------------------------------------------
// Incoming updates
// ---------------------------------------------------------------------------

/// An incremental statistic update as uploaded by a game server. Each
/// variant names the mutation to apply, not the stored shape: totals ask
/// for "add this amount to the running total", rolling averages ask for
/// "fold this single sample into the running (total, count) pair".
#[derive(Clone, Copy, PartialEq, Eq, Structural, Debug)]
pub enum UploadStat {
    IntTotal(i64),
    IntRollingAverage(i64),
    FloatTotal(u64),
    FloatRollingAverage(u64),
}

/// The type tag persisted beside each stored stat value.
#[derive(Clone, Copy, PartialEq, Eq, Structural, Debug)]
pub enum StatKind {
    IntTotal,
    IntRollingAverage,
    FloatTotal,
    FloatRollingAverage,
}

impl StatKind {
    /// True for the kinds stored as a (total, count) pair.
    pub open spec fn is_average(self) -> bool {
        self == StatKind::IntRollingAverage || self == StatKind::FloatRollingAverage
    }

    /// The wire spelling of this tag.
    pub open spec fn tag_spec(self) -> Seq<char> {
        match self {
            StatKind::IntTotal => "int_total"@,
            StatKind::IntRollingAverage => "int_rolling_average"@,
            StatKind::FloatTotal => "float_total"@,
            StatKind::FloatRollingAverage => "float_rolling_average"@,
        }
    }

    /// The wire spelling of this tag, as written into the `type` field.
    pub fn tag(&self) -> (t: &'static str)
        ensures
            t@ == self.tag_spec(),
    {
        match self {
            StatKind::IntTotal => "int_total",
            StatKind::IntRollingAverage => "int_rolling_average",
            StatKind::FloatTotal => "float_total",
            StatKind::FloatRollingAverage => "float_rolling_average",
        }
    }
}

impl UploadStat {
    /// The type tag this update stamps onto the stored stat.
    pub open spec fn kind_spec(self) -> StatKind {
        match self {
            UploadStat::IntTotal(_) => StatKind::IntTotal,
            UploadStat::IntRollingAverage(_) => StatKind::IntRollingAverage,
            UploadStat::FloatTotal(_) => StatKind::FloatTotal,
            UploadStat::FloatRollingAverage(_) => StatKind::FloatRollingAverage,
        }
    }

    /// The numeric payload of this update.
    pub open spec fn amount_spec(self) -> Sample {
        match self {
            UploadStat::IntTotal(v) => Sample::Int(v),
            UploadStat::IntRollingAverage(v) => Sample::Int(v),
            UploadStat::FloatTotal(b) => Sample::Float(b),
            UploadStat::FloatRollingAverage(b) => Sample::Float(b),
        }
    }

    pub fn kind(&self) -> (k: StatKind)
        ensures
            k == self.kind_spec(),
    {
        match self {
            UploadStat::IntTotal(_) => StatKind::IntTotal,
            UploadStat::IntRollingAverage(_) => StatKind::IntRollingAverage,
            UploadStat::FloatTotal(_) => StatKind::FloatTotal,
            UploadStat::FloatRollingAverage(_) => StatKind::FloatRollingAverage,
        }
    }

    pub fn amount(&self) -> (a: Sample)
        ensures
            a == self.amount_spec(),
    {
        match self {
            UploadStat::IntTotal(v) => Sample::Int(*v),
            UploadStat::IntRollingAverage(v) => Sample::Int(*v),
            UploadStat::FloatTotal(b) => Sample::Float(*b),
            UploadStat::FloatRollingAverage(b) => Sample::Float(*b),
        }
    }
}

// ---------------------------------------------------------------------------
// Stored (raw) form
// ---------------------------------------------------------------------------

/// A stored numeric field. A float-typed field keeps the sequence of
/// contributions that were folded into it; its displayed value is the sum
/// of those contributions, computed at the edge.
#[derive(Debug)]
pub enum RawNum {
    Int(i64),
    Float(Vec<Sample>),
}

/// Ghost mirror of [`RawNum`].
#[verifier::ext_equal]
pub enum RawNumV {
    Int(i64),
    Float(Seq<Sample>),
}

impl View for RawNum {
    type V = RawNumV;

    open spec fn view(&self) -> RawNumV {
        match self {
            RawNum::Int(t) => RawNumV::Int(*t),
            RawNum::Float(h) => RawNumV::Float(h@),
        }
    }
}

/// The shape of a stored stat value: a bare scalar for totals, or a
/// (total, count) pair for rolling averages.
#[derive(Debug)]
pub enum RawValue {
    Scalar(RawNum),
    Pair { total: RawNum, count: i64 },
}

/// Ghost mirror of [`RawValue`].
#[verifier::ext_equal]
pub enum RawValueV {
    Scalar(RawNumV),
    Pair { total: RawNumV, count: i64 },
}

impl View for RawValue {
    type V = RawValueV;

    open spec fn view(&self) -> RawValueV {
        match self {
            RawValue::Scalar(n) => RawValueV::Scalar(n@),
            RawValue::Pair { total, count } => RawValueV::Pair { total: total@, count: *count },
        }
    }
}

/// One stored stat as it sits in a document: a type tag beside a value
/// whose shape the tag is supposed to describe. Nothing forces the two to
/// agree: a later upload under a different variant can leave them at odds,
/// which is exactly the corruption the quarantine path handles.
#[derive(Debug)]
pub struct RawStat {
    pub kind: StatKind,
    pub value: RawValue,
}

/// Ghost mirror of [`RawStat`].
#[verifier::ext_equal]
pub struct RawStatV {
    pub kind: StatKind,
    pub value: RawValueV,
}

impl View for RawStat {
    type V = RawStatV;

    open spec fn view(&self) -> RawStatV {
        RawStatV { kind: self.kind, value: self.value@ }
    }
}

// ---------------------------------------------------------------------------
// Decoded form
// ---------------------------------------------------------------------------

/// A stored statistic once its raw form has decoded cleanly against its
/// type tag. Totals display as themselves; averages display as
/// `total / count`, a division the edges perform.
#[derive(Debug)]
pub enum GameStat {
    IntTotal(i64),
    IntAverage { total: i64, count: i64 },
    FloatTotal(Vec<Sample>),
    FloatAverage { total: Vec<Sample>, count: i64 },
}

/// Ghost mirror of [`GameStat`].
#[verifier::ext_equal]
pub enum GameStatV {
    IntTotal(i64),
    IntAverage { total: i64, count: i64 },
    FloatTotal(Seq<Sample>),
    FloatAverage { total: Seq<Sample>, count: i64 },
}

impl View for GameStat {
    type V = GameStatV;

    open spec fn view(&self) -> GameStatV {
        match self {
            GameStat::IntTotal(t) => GameStatV::IntTotal(*t),
            GameStat::IntAverage { total, count } => GameStatV::IntAverage {
                total: *total,
                count: *count,
            },
            GameStat::FloatTotal(h) => GameStatV::FloatTotal(h@),
            GameStat::FloatAverage { total, count } => GameStatV::FloatAverage {
                total: total@,
                count: *count,
            },
        }
    }
}

/// Why a stored stat failed to decode against its type tag.
#[derive(Clone, Copy, PartialEq, Eq, Structural, Debug)]
pub enum DecodeError {
    /// The stored value's shape does not match the tag (for instance a
    /// float-bearing scalar under an integer tag).
    ShapeMismatch,
    /// An average variant whose count is not at least one: it cannot have
    /// been produced by the increment rules, and dividing by it would be
    /// meaningless, so it is treated as corruption.
    NonPositiveCount,
}

/// A float-typed field decoded from an integer scalar is the one-sample
/// history of that integer; a float history decodes to itself.
pub open spec fn as_samples(n: RawNumV) -> Seq<Sample> {
    match n {
        RawNumV::Int(t) => seq![Sample::Int(t)],
        RawNumV::Float(h) => h,
    }
}

/// What decoding a raw stored stat yields. Integer tags insist on integer
/// payloads (a float payload under them is the classic corruption);
/// float tags accept an integer payload, widening it to one sample.
pub open spec fn decode_stat_spec(r: RawStatV) -> Result<GameStatV, DecodeError> {
    match r.kind {
        StatKind::IntTotal => match r.value {
            RawValueV::Scalar(RawNumV::Int(t)) => Ok(GameStatV::IntTotal(t)),
            _ => Err(DecodeError::ShapeMismatch),
        },
        StatKind::IntRollingAverage => match r.value {
            RawValueV::Pair { total: RawNumV::Int(t), count } => if count >= 1 {
                Ok(GameStatV::IntAverage { total: t, count })
            } else {
                Err(DecodeError::NonPositiveCount)
            },
            _ => Err(DecodeError::ShapeMismatch),
        },
        StatKind::FloatTotal => match r.value {
            RawValueV::Scalar(n) => Ok(GameStatV::FloatTotal(as_samples(n))),
            _ => Err(DecodeError::ShapeMismatch),
        },
        StatKind::FloatRollingAverage => match r.value {
            RawValueV::Pair { total, count } => if count >= 1 {
                Ok(GameStatV::FloatAverage { total: as_samples(total), count })
            } else {
                Err(DecodeError::NonPositiveCount)
            },
            _ => Err(DecodeError::ShapeMismatch),
        },
    }
}

/// A one-sample history.
pub fn singleton_samples(s: Sample) -> (r: Vec<Sample>)
    ensures
        r@ == seq![s],
{
    let mut r: Vec<Sample> = Vec::new();
    r.push(s);
    proof {
        assert(r@ =~= seq![s]);
    }
    r
}

/// Copy a sample history.
pub fn copy_samples(v: &Vec<Sample>) -> (r: Vec<Sample>)
    ensures
        r@ == v@,
{
    let mut r: Vec<Sample> = Vec::new();
    let mut i: usize = 0;
    while i < v.len()
        invariant
            i <= v.len(),
            r@ == v@.subrange(0, i as int),
        decreases v.len() - i,
    {
        r.push(v[i]);
        i = i + 1;
    }
    proof {
        assert(r@ =~= v@);
    }
    r
}

impl RawNum {
    /// Copy a raw numeric field.
    pub fn duplicate(&self) -> (r: RawNum)
        ensures
            r@ == self@,
    {
        match self {
            RawNum::Int(t) => RawNum::Int(*t),
            RawNum::Float(h) => RawNum::Float(copy_samples(h)),
        }
    }
}

impl RawValue {
    /// Copy a raw stored value.
    pub fn duplicate(&self) -> (r: RawValue)
        ensures
            r@ == self@,
    {
        match self {
            RawValue::Scalar(n) => RawValue::Scalar(n.duplicate()),
            RawValue::Pair { total, count } => RawValue::Pair {
                total: total.duplicate(),
                count: *count,
            },
        }
    }
}

impl RawStat {
    /// Copy a raw stored stat.
    pub fn duplicate(&self) -> (r: RawStat)
        ensures
            r@ == self@,
    {
        RawStat { kind: self.kind, value: self.value.duplicate() }
    }

    /// Decode this stored stat against its type tag.
    pub fn decode(&self) -> (r: Result<GameStat, DecodeError>)
        ensures
            match r {
                Ok(g) => decode_stat_spec(self@) == Ok::<GameStatV, DecodeError>(g@),
                Err(e) => decode_stat_spec(self@) == Err::<GameStatV, DecodeError>(e),
            },
    {
        match self.kind {
            StatKind::IntTotal => match &self.value {
                RawValue::Scalar(RawNum::Int(t)) => Ok(GameStat::IntTotal(*t)),
                _ => Err(DecodeError::ShapeMismatch),
            },
            StatKind::IntRollingAverage => match &self.value {
                RawValue::Pair { total: RawNum::Int(t), count } => if *count >= 1 {
                    Ok(GameStat::IntAverage { total: *t, count: *count })
                } else {
                    Err(DecodeError::NonPositiveCount)
                },
                _ => Err(DecodeError::ShapeMismatch),
            },
            StatKind::FloatTotal => match &self.value {
                RawValue::Scalar(RawNum::Int(t)) => Ok(
                    GameStat::FloatTotal(singleton_samples(Sample::Int(*t))),
                ),
                RawValue::Scalar(RawNum::Float(h)) => Ok(GameStat::FloatTotal(copy_samples(h))),
                _ => Err(DecodeError::ShapeMismatch),
            },
            StatKind::FloatRollingAverage => match &self.value {
                RawValue::Pair { total, count } => if *count >= 1 {
                    let samples = match total {
                        RawNum::Int(t) => singleton_samples(Sample::Int(*t)),
                        RawNum::Float(h) => copy_samples(h),
                    };
                    Ok(GameStat::FloatAverage { total: samples, count: *count })
                } else {
                    Err(DecodeError::NonPositiveCount)
                },
                _ => Err(DecodeError::ShapeMismatch),
            },
        }
    }
}

// ---------------------------------------------------------------------------
// Mutations
// ---------------------------------------------------------------------------

/// The atomic field mutation derived from one incoming update: against the
/// owning document it increments the fields below `stats.<name>.value` and
/// stamps `stats.<name>.type` with the update's tag.
pub struct StatMutation {
    pub stat_name: String,
    pub kind: StatKind,
    pub amount: Sample,
}

/// Ghost mirror of [`StatMutation`].
#[verifier::ext_equal]
pub struct StatMutationV {
    pub stat_name: Seq<char>,
    pub kind: StatKind,
    pub amount: Sample,
}

impl View for StatMutation {
    type V = StatMutationV;

    open spec fn view(&self) -> StatMutationV {
        StatMutationV { stat_name: self.stat_name@, kind: self.kind, amount: self.amount }
    }
}

/// The field path of a stat's value inside its document.
pub open spec fn value_path_spec(name: Seq<char>) -> Seq<char> {
    "stats."@ + name + ".value"@
}

/// The field path of a stat's type tag inside its document.
pub open spec fn type_path_spec(name: Seq<char>) -> Seq<char> {
    "stats."@ + name + ".type"@
}

/// The field path of an average stat's running total.
pub open spec fn total_path_spec(name: Seq<char>) -> Seq<char> {
    value_path_spec(name) + ".total"@
}

/// The field path of an average stat's contribution count.
pub open spec fn count_path_spec(name: Seq<char>) -> Seq<char> {
    value_path_spec(name) + ".count"@
}

impl StatMutation {
    /// Render the field path of the mutated value.
    pub fn value_path(&self) -> (r: String)
        ensures
            r@ == value_path_spec(self.stat_name@),
    {
        let r = "stats.".to_owned().concat(self.stat_name.as_str()).concat(".value");
        r
    }

    /// Render the field path of the stamped type tag.
    pub fn type_path(&self) -> (r: String)
        ensures
            r@ == type_path_spec(self.stat_name@),
    {
        let r = "stats.".to_owned().concat(self.stat_name.as_str()).concat(".type");
        r
    }

    /// Render the field path of the incremented running total.
    pub fn total_path(&self) -> (r: String)
        ensures
            r@ == total_path_spec(self.stat_name@),
    {
        let r = self.value_path().concat(".total");
        r
    }

    /// Render the field path of the incremented contribution count.
    pub fn count_path(&self) -> (r: String)
        ensures
            r@ == count_path_spec(self.stat_name@),
    {
        let r = self.value_path().concat(".count");
        r
    }
}

impl UploadStat {
    /// The pure conversion from an incoming update to the atomic field
    /// mutation that folds it into the owning document. The stat name must
    /// be free of the field-path separator, which upload validation
    /// guarantees before any mutation is built.
    pub fn create_increment_operation(&self, id: &str) -> (m: StatMutation)
        requires
            crate::valid_stat_name(id@),
        ensures
            m@.stat_name == id@,
            m@.kind == self.kind_spec(),
            m@.amount == self.amount_spec(),
    {
        StatMutation { stat_name: id.to_owned(), kind: self.kind(), amount: self.amount() }
    }
}

// ---------------------------------------------------------------------------
// The meaning of applying a mutation to a stored field
// ---------------------------------------------------------------------------

/// The store's atomic increment applied to one numeric field. Two integers
/// add (the store refuses the update on overflow, hence `None`); as soon as
/// a float payload is involved the field becomes float-typed and the
/// contribution joins its history.
pub open spec fn inc_num_spec(cur: RawNumV, amount: Sample) -> Option<RawNumV> {
    match (cur, amount) {
        (RawNumV::Int(t), Sample::Int(v)) => if i64::MIN <= t + v <= i64::MAX {
            Some(RawNumV::Int((t + v) as i64))
        } else {
            None
        },
        (RawNumV::Int(t), Sample::Float(b)) => Some(
            RawNumV::Float(seq![Sample::Int(t), Sample::Float(b)]),
        ),
        (RawNumV::Float(h), v) => Some(RawNumV::Float(h.push(v))),
    }
}

/// The numeric field created when an increment hits an absent field.
pub open spec fn new_num_spec(amount: Sample) -> RawNumV {
    match amount {
        Sample::Int(v) => RawNumV::Int(v),
        Sample::Float(b) => RawNumV::Float(seq![Sample::Float(b)]),
    }
}

/// What one mutation makes of one stored stat slot. `None` means the store
/// refuses the update and leaves the document untouched: the existing
/// shape clashes with the mutation's field paths (a pair where a scalar is
/// incremented or the reverse), or an integer total overflows.
pub open spec fn apply_stat_spec(cur: Option<RawStatV>, kind: StatKind, amount: Sample) -> Option<
    RawStatV,
> {
    if kind.is_average() {
        match cur {
            None => Some(
                RawStatV {
                    kind,
                    value: RawValueV::Pair { total: new_num_spec(amount), count: 1 },
                },
            ),
            Some(c) => match c.value {
                RawValueV::Pair { total, count } => if count + 1 <= i64::MAX {
                    match inc_num_spec(total, amount) {
                        Some(t2) => Some(
                            RawStatV {
                                kind,
                                value: RawValueV::Pair { total: t2, count: (count + 1) as i64 },
                            },
                        ),
                        None => None,
                    }
                } else {
                    None
                },
                RawValueV::Scalar(_) => None,
            },
        }
    } else {
        match cur {
            None => Some(RawStatV { kind, value: RawValueV::Scalar(new_num_spec(amount)) }),
            Some(c) => match c.value {
                RawValueV::Scalar(n) => match inc_num_spec(n, amount) {
                    Some(n2) => Some(RawStatV { kind, value: RawValueV::Scalar(n2) }),
                    None => None,
                },
                RawValueV::Pair { .. } => None,
            },
        }
    }
}

/// [`apply_stat_spec`] driven directly by an incoming update.
pub open spec fn apply_upload_spec(cur: Option<RawStatV>, u: UploadStat) -> Option<RawStatV> {
    apply_stat_spec(cur, u.kind_spec(), u.amount_spec())
}

/// Apply one mutation to one stored stat slot, as the store's atomic
/// increment would. Returns the new slot, or `None` where the store
/// refuses the update.
pub fn apply_stat(cur: Option<&RawStat>, kind: StatKind, amount: Sample) -> (r: Option<RawStat>)
    ensures
        match r {
            Some(s) => apply_stat_spec(
                match cur {
                    Some(c) => Some(c@),
                    None => None,
                },
                kind,
                amount,
            ) == Some(s@),
            None => apply_stat_spec(
                match cur {
                    Some(c) => Some(c@),
                    None => None,
                },
                kind,
                amount,
            ) is None,
        },
{
    let is_avg = match kind {
        StatKind::IntRollingAverage => true,
        StatKind::FloatRollingAverage => true,
        _ => false,
    };
    if is_avg {
        match cur {
            None => Some(
                RawStat { kind, value: RawValue::Pair { total: new_num(amount), count: 1 } },
            ),
            Some(c) => match &c.value {
                RawValue::Pair { total, count } => {
                    if *count == i64::MAX {
                        return None;
                    }
                    match inc_num(total, amount) {
                        Some(t2) => Some(
                            RawStat {
                                kind,
                                value: RawValue::Pair { total: t2, count: *count + 1 },
                            },
                        ),
                        None => None,
                    }
                },
                RawValue::Scalar(_) => None,
            },
        }
    } else {
        match cur {
            None => Some(RawStat { kind, value: RawValue::Scalar(new_num(amount)) }),
            Some(c) => match &c.value {
                RawValue::Scalar(n) => match inc_num(n, amount) {
                    Some(n2) => Some(RawStat { kind, value: RawValue::Scalar(n2) }),
                    None => None,
                },
                RawValue::Pair { .. } => None,
            },
        }
    }
}

/// Apply the store's atomic increment to one numeric field.
fn inc_num(cur: &RawNum, amount: Sample) -> (r: Option<RawNum>)
    ensures
        match r {
            Some(n) => inc_num_spec(cur@, amount) == Some(n@),
            None => inc_num_spec(cur@, amount) is None,
        },
{
    match (cur, amount) {
        (RawNum::Int(t), Sample::Int(v)) => match t.checked_add(v) {
            Some(s) => Some(RawNum::Int(s)),
            None => None,
        },
        (RawNum::Int(t), Sample::Float(b)) => {
            let mut h: Vec<Sample> = Vec::new();
            h.push(Sample::Int(*t));
            h.push(Sample::Float(b));
            proof {
                assert(h@ =~= seq![Sample::Int(*t), Sample::Float(b)]);
            }
            Some(RawNum::Float(h))
        },
        (RawNum::Float(h), v) => {
            let mut h2 = copy_samples(h);
            h2.push(v);
            Some(RawNum::Float(h2))
        },
    }
}

/// The numeric field created when an increment hits an absent field.
fn new_num(amount: Sample) -> (r: RawNum)
    ensures
        r@ == new_num_spec(amount),
{
    match amount {
        Sample::Int(v) => RawNum::Int(v),
        Sample::Float(b) => RawNum::Float(singleton_samples(Sample::Float(b))),
    }
}

// ---------------------------------------------------------------------------
// Laws
// ---------------------------------------------------------------------------

/// What applying the same incoming update twice to an initially absent
/// stat slot leaves stored.
pub open spec fn double_apply_spec(u: UploadStat) -> Option<RawStatV> {
    match apply_upload_spec(None, u) {
        Some(s) => apply_upload_spec(Some(s), u),
        None => None,
    }
}

/// Law: for every valid stat name and every update variant, the mutation
/// applied twice with the same sample to an initially empty document
/// accumulates totals as the sum of both samples, and averages as count
/// two with both samples folded into the total, so that the decoded value
/// is their mean.
pub proof fn lemma_apply_twice_from_empty(m: StatMutationV, u: UploadStat)
    requires
        crate::valid_stat_name(m.stat_name),
        m.kind == u.kind_spec(),
        m.amount == u.amount_spec(),
        match u {
            UploadStat::IntTotal(v) => i64::MIN <= v + v <= i64::MAX,
            UploadStat::IntRollingAverage(v) => i64::MIN <= v + v <= i64::MAX,
            _ => true,
        },
    ensures
        match u {
            UploadStat::IntTotal(v) => double_apply_spec(u) == Some(
                RawStatV {
                    kind: StatKind::IntTotal,
                    value: RawValueV::Scalar(RawNumV::Int((v + v) as i64)),
                },
            ) && decode_stat_spec(double_apply_spec(u)->Some_0) == Ok::<GameStatV, DecodeError>(
                GameStatV::IntTotal((v + v) as i64),
            ),
            UploadStat::IntRollingAverage(v) => double_apply_spec(u) == Some(
                RawStatV {
                    kind: StatKind::IntRollingAverage,
                    value: RawValueV::Pair { total: RawNumV::Int((v + v) as i64), count: 2 },
                },
            ) && decode_stat_spec(double_apply_spec(u)->Some_0) == Ok::<GameStatV, DecodeError>(
                GameStatV::IntAverage { total: (v + v) as i64, count: 2 },
            ),
            UploadStat::FloatTotal(b) => double_apply_spec(u) == Some(
                RawStatV {
                    kind: StatKind::FloatTotal,
                    value: RawValueV::Scalar(
                        RawNumV::Float(seq![Sample::Float(b), Sample::Float(b)]),
                    ),
                },
            ) && decode_stat_spec(double_apply_spec(u)->Some_0) == Ok::<GameStatV, DecodeError>(
                GameStatV::FloatTotal(seq![Sample::Float(b), Sample::Float(b)]),
            ),
            UploadStat::FloatRollingAverage(b) => double_apply_spec(u) == Some(
                RawStatV {
                    kind: StatKind::FloatRollingAverage,
                    value: RawValueV::Pair {
                        total: RawNumV::Float(seq![Sample::Float(b), Sample::Float(b)]),
                        count: 2,
                    },
                },
            ) && decode_stat_spec(double_apply_spec(u)->Some_0) == Ok::<GameStatV, DecodeError>(
                GameStatV::FloatAverage {
                    total: seq![Sample::Float(b), Sample::Float(b)],
                    count: 2,
                },
            ),
        },
{
    match u {
        UploadStat::FloatTotal(b) => {
            assert(seq![Sample::Float(b)].push(Sample::Float(b)) =~= seq![
                Sample::Float(b),
                Sample::Float(b),
            ]);
        },
        UploadStat::FloatRollingAverage(b) => {
            assert(seq![Sample::Float(b)].push(Sample::Float(b)) =~= seq![
                Sample::Float(b),
                Sample::Float(b),
            ]);
        },
        _ => {},
    }
}

/// Law: an average variant stored with a non-positive count never decodes
/// to a value. It cannot arise from the increment rules (see
/// [`lemma_apply_keeps_count_positive`]); if observed it is corruption,
/// not a valid zero-mean average.
pub proof fn lemma_non_positive_count_is_corrupt(r: RawStatV)
    requires
        match r.value {
            RawValueV::Pair { total: _, count } => count <= 0,
            _ => false,
        },
    ensures
        decode_stat_spec(r) is Err,
{
}

/// A stored stat whose count, if it has one, is at least one.
pub open spec fn count_positive(r: RawStatV) -> bool {
    match r.value {
        RawValueV::Pair { total: _, count } => count >= 1,
        _ => true,
    }
}

/// Law: the increment rules only ever produce stats with positive counts:
/// a pair is created with count one and each further contribution adds
/// one, so a non-positive count never occurs in normal operation.
pub proof fn lemma_apply_keeps_count_positive(
    cur: Option<RawStatV>,
    kind: StatKind,
    amount: Sample,
)
    requires
        match cur {
            Some(c) => count_positive(c),
            None => true,
        },
    ensures
        match apply_stat_spec(cur, kind, amount) {
            Some(r) => count_positive(r),
            None => true,
        },
{
}

/// Law: in the field path built from a valid stat name the only separator
/// characters are the two the encoding itself places, one before the name
/// and one after it, so the name's boundaries inside the path are
/// unambiguous. This is why names containing the separator are rejected.
pub proof fn lemma_value_path_separators(name: Seq<char>)
    requires
        crate::valid_stat_name(name),
    ensures
        value_path_spec(name).len() == name.len() + 12,
        forall|i: int|
            0 <= i < value_path_spec(name).len() ==> (value_path_spec(name)[i] == '.' <==> (i == 5
                || i == name.len() + 6)),
{
    reveal_strlit("stats.");
    reveal_strlit(".value");
    let p = value_path_spec(name);
    assert forall|i: int| 0 <= i < p.len() implies (p[i] == '.' <==> (i == 5 || i == name.len()
        + 6)) by {
        if i < 6 {
            assert(p[i] == "stats."@[i]);
        } else if i < 6 + name.len() {
            assert(p[i] == name[i - 6]);
        } else {
            assert(p[i] == ".value"@[i - 6 - name.len()]);
        }
    }
}

/// Law: distinct valid stat names never build the same value path, so two
/// different stats can never collide on a stored field.
pub proof fn lemma_value_path_injective(a: Seq<char>, b: Seq<char>)
    requires
        crate::valid_stat_name(a),
        crate::valid_stat_name(b),
        value_path_spec(a) == value_path_spec(b),
    ensures
        a == b,
{
    reveal_strlit("stats.");
    reveal_strlit(".value");
    let pa = value_path_spec(a);
    let pb = value_path_spec(b);
    assert(pa.len() == a.len() + 12);
    assert(pb.len() == b.len() + 12);
    assert forall|i: int| 0 <= i < a.len() implies a[i] == b[i] by {
        assert(pa[i + 6] == a[i]);
        assert(pb[i + 6] == b[i]);
    }
    assert(a =~= b);
}



} // verus!
