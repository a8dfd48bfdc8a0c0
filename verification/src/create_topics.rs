//! The CreateTopics request body at version 0: a classic array of topics,
//! each with a name, partition and replication settings, explicit replica
//! assignments and per-topic configs, followed by a timeout.

use vstd::prelude::*;
use vstd::utf8::encode_utf8;
use vstd::pervasive::unreached;
use crate::errors::DecodeError;
use crate::primitives::{enc_i16, enc_i32, dec_i16, dec_i32, write_i16, write_i32, read_i16, read_i32};
use crate::strings::{
    enc_classic_string,
    dec_classic_string,
    write_classic_string,
    read_classic_string,
    opt_string_view,
};

verus! {

/// The wire bytes of a classic array of `i32` values: the count, then the
/// values, big-endian.
pub open spec fn enc_i32_seq(vs: Seq<i32>) -> Seq<u8>
    decreases vs.len(),
{
    if vs.len() == 0 {
        Seq::empty()
    } else {
        enc_i32(vs[0]) + enc_i32_seq(vs.drop_first())
    }
}

/// A classic non-nullable array of `i32`: count then elements.
pub open spec fn enc_i32_array(vs: Seq<i32>) -> Seq<u8> {
    enc_i32(vs.len() as i32) + enc_i32_seq(vs)
}

/// Spec-level decoder for `k` big-endian `i32` values in a row.
pub open spec fn dec_i32_entries(s: Seq<u8>, pos: int, k: nat) -> Result<(Seq<i32>, int), DecodeError>
    decreases k,
{
    if k == 0 {
        Ok((Seq::empty(), pos))
    } else {
        match dec_i32(s, pos) {
            Ok((v, p1)) => match dec_i32_entries(s, p1, (k - 1) as nat) {
                Ok((rest, p2)) => Ok((seq![v] + rest, p2)),
                Err(e) => Err(e),
            },
            Err(e) => Err(e),
        }
    }
}

/// Spec-level decoder for a classic non-nullable `i32` array at `pos`.
pub open spec fn dec_i32_array(s: Seq<u8>, pos: int) -> Result<(Seq<i32>, int), DecodeError> {
    match dec_i32(s, pos) {
        Ok((n, p1)) => if n < 0 {
            Err(DecodeError::Malformed)
        } else {
            dec_i32_entries(s, p1, n as nat)
        },
        Err(e) => Err(e),
    }
}

/// Appending a value to a run appends its bytes to the encoding.
pub proof fn lemma_i32_seq_snoc(vs: Seq<i32>, v: i32)
    ensures
        enc_i32_seq(vs.push(v)) == enc_i32_seq(vs) + enc_i32(v),
    decreases vs.len(),
{
    let p = vs.push(v);
    assert(enc_i32_seq(p) == enc_i32(p[0]) + enc_i32_seq(p.drop_first()));
    if vs.len() == 0 {
        assert(p.drop_first() =~= Seq::<i32>::empty());
        assert(enc_i32_seq(Seq::<i32>::empty()) == Seq::<u8>::empty());
        assert(p[0] == v);
        assert(enc_i32(v) + Seq::<u8>::empty() =~= Seq::<u8>::empty() + enc_i32(v));
    } else {
        assert(p.drop_first() =~= vs.drop_first().push(v));
        lemma_i32_seq_snoc(vs.drop_first(), v);
        assert(p[0] == vs[0]);
        assert(enc_i32(vs[0]) + (enc_i32_seq(vs.drop_first()) + enc_i32(v)) =~= (enc_i32(vs[0])
            + enc_i32_seq(vs.drop_first())) + enc_i32(v));
    }
}

/// Appends a classic non-nullable `i32` array.
#[verifier::loop_isolation(false)]
pub fn write_i32_array(out: &mut Vec<u8>, vs: &Vec<i32>)
    requires
        vs@.len() <= 0x7FFF_FFFF,
    ensures
        final(out)@ == old(out)@ + enc_i32_array(vs@),
{
    let n = vs.len();
    write_i32(out, n as i32);
    let ghost before = out@;
    let mut j: usize = 0;
    while j < n
        invariant
            out@ == before + enc_i32_seq(vs@.take(j as int)),
            0 <= j <= n,
        decreases n - j,
    {
        write_i32(out, vs[j]);
        proof {
            lemma_i32_seq_snoc(vs@.take(j as int), vs@[j as int]);
            assert(vs@.take(j as int).push(vs@[j as int]) =~= vs@.take(j as int + 1));
        }
        j = j + 1;
    }
    assert(vs@.take(n as int) =~= vs@);
    assert(out@ =~= old(out)@ + enc_i32_array(vs@));
}

/// Reads a classic non-nullable `i32` array at `pos`.
#[verifier::loop_isolation(false)]
pub fn read_i32_array(buf: &Vec<u8>, pos: usize) -> (r: Result<(Vec<i32>, usize), DecodeError>)
    ensures
        match r {
            Ok((vs, n)) => dec_i32_array(buf@, pos as int) == Ok::<(Seq<i32>, int), DecodeError>(
                (vs@, n as int),
            ),
            Err(e) => dec_i32_array(buf@, pos as int) == Err::<(Seq<i32>, int), DecodeError>(e),
        },
{
    let ghost s = buf@;
    let count: i32;
    let mut cur: usize;
    match read_i32(buf, pos) {
        Ok((n, p1)) => {
            count = n;
            cur = p1;
        },
        Err(e) => {
            return Err(e);
        },
    }
    if count < 0 {
        return Err(DecodeError::Malformed);
    }
    let ghost p1 = cur as int;
    let mut acc: Vec<i32> = Vec::new();
    let mut i: i32 = 0;
    while i < count
        invariant
            0 <= i <= count,
            dec_i32_entries(s, p1, count as nat) == (match dec_i32_entries(
                s,
                cur as int,
                (count - i) as nat,
            ) {
                Ok((rest, p)) => Ok::<(Seq<i32>, int), DecodeError>((acc@ + rest, p)),
                Err(e) => Err::<(Seq<i32>, int), DecodeError>(e),
            }),
        decreases count - i,
    {
        match read_i32(buf, cur) {
            Ok((v, p2)) => {
                let ghost acc_view = acc@;
                proof {
                    let rest_dec = dec_i32_entries(s, p2 as int, (count - i - 1) as nat);
                    match rest_dec {
                        Ok((rest, p)) => {
                            assert(acc_view.push(v) + rest =~= acc_view + (seq![v] + rest));
                        },
                        Err(_) => {},
                    }
                }
                acc.push(v);
                cur = p2;
                i = i + 1;
            },
            Err(e) => {
                return Err(e);
            },
        }
    }
    assert(acc@ + Seq::<i32>::empty() =~= acc@);
    Ok((acc, cur))
}

/// Round trip for a run of `i32` values.
pub proof fn lemma_i32_entries_round_trip(prefix: Seq<u8>, vs: Seq<i32>, suffix: Seq<u8>)
    ensures
        dec_i32_entries(prefix + enc_i32_seq(vs) + suffix, prefix.len() as int, vs.len()) == Ok::<
            (Seq<i32>, int),
            DecodeError,
        >((vs, prefix.len() as int + enc_i32_seq(vs).len() as int)),
    decreases vs.len(),
{
    let s = prefix + enc_i32_seq(vs) + suffix;
    let p = prefix.len() as int;
    if vs.len() == 0 {
        assert(s =~= prefix + suffix);
        assert(vs =~= Seq::<i32>::empty());
    } else {
        let head = enc_i32(vs[0]);
        let tail = enc_i32_seq(vs.drop_first());
        assert(s =~= prefix + head + (tail + suffix));
        crate::primitives::lemma_i32_round_trip(prefix, vs[0], tail + suffix);
        assert(s =~= (prefix + head) + tail + suffix);
        lemma_i32_entries_round_trip(prefix + head, vs.drop_first(), suffix);
        assert(seq![vs[0]] + vs.drop_first() =~= vs);
        assert(enc_i32_seq(vs).len() == 4 + tail.len());
    }
}

/// The round-trip law for classic `i32` arrays.
pub proof fn lemma_i32_array_round_trip(prefix: Seq<u8>, vs: Seq<i32>, suffix: Seq<u8>)
    requires
        vs.len() <= 0x7FFF_FFFF,
    ensures
        dec_i32_array(prefix + enc_i32_array(vs) + suffix, prefix.len() as int) == Ok::<
            (Seq<i32>, int),
            DecodeError,
        >((vs, prefix.len() as int + enc_i32_array(vs).len() as int)),
{
    let s = prefix + enc_i32_array(vs) + suffix;
    let a = enc_i32(vs.len() as i32);
    let body = enc_i32_seq(vs);
    assert(s =~= prefix + a + (body + suffix));
    crate::primitives::lemma_i32_round_trip(prefix, vs.len() as i32, body + suffix);
    assert(s =~= (prefix + a) + body + suffix);
    lemma_i32_entries_round_trip(prefix + a, vs, suffix);
}

/// One explicit replica assignment: a partition and its broker ids.
#[derive(Debug, Clone, PartialEq)]
pub struct CreatableReplicaAssignment {
    pub partition_index: i32,
    pub broker_ids: Vec<i32>,
}

/// The mathematical shape of a replica assignment.
pub ghost struct CreatableReplicaAssignmentModel {
    pub partition_index: i32,
    pub broker_ids: Seq<i32>,
}

impl View for CreatableReplicaAssignment {
    type V = CreatableReplicaAssignmentModel;

    open spec fn view(&self) -> CreatableReplicaAssignmentModel {
        CreatableReplicaAssignmentModel {
            partition_index: self.partition_index,
            broker_ids: self.broker_ids@,
        }
    }
}

impl DeepView for CreatableReplicaAssignment {
    type V = CreatableReplicaAssignmentModel;

    open spec fn deep_view(&self) -> CreatableReplicaAssignmentModel {
        self@
    }
}

/// The wire bytes of one replica assignment.
pub open spec fn enc_assignment(m: CreatableReplicaAssignmentModel) -> Seq<u8> {
    enc_i32(m.partition_index) + enc_i32_array(m.broker_ids)
}

/// Spec-level decoder for one replica assignment at `pos`.
pub open spec fn dec_assignment(s: Seq<u8>, pos: int) -> Result<
    (CreatableReplicaAssignmentModel, int),
    DecodeError,
> {
    match dec_i32(s, pos) {
        Ok((partition_index, p1)) => match dec_i32_array(s, p1) {
            Ok((broker_ids, p2)) => Ok(
                (CreatableReplicaAssignmentModel { partition_index, broker_ids }, p2),
            ),
            Err(e) => Err(e),
        },
        Err(e) => Err(e),
    }
}

impl CreatableReplicaAssignment {
    /// An assignment with the given fields.
    pub fn new(partition_index: i32, broker_ids: Vec<i32>) -> (r: CreatableReplicaAssignment)
        ensures
            r.partition_index == partition_index,
            r.broker_ids@ == broker_ids@,
    {
        CreatableReplicaAssignment { partition_index, broker_ids }
    }

    /// Appends the wire bytes of this assignment.
    pub fn write(&self, out: &mut Vec<u8>)
        requires
            self.broker_ids@.len() <= 0x7FFF_FFFF,
        ensures
            final(out)@ == old(out)@ + enc_assignment(self@),
    {
        write_i32(out, self.partition_index);
        write_i32_array(out, &self.broker_ids);
        assert(out@ =~= old(out)@ + enc_assignment(self@));
    }

    /// Reads an assignment at `pos`.
    pub fn read(buf: &Vec<u8>, pos: usize) -> (r: Result<
        (CreatableReplicaAssignment, usize),
        DecodeError,
    >)
        ensures
            match r {
                Ok((v, n)) => dec_assignment(buf@, pos as int) == Ok::<
                    (CreatableReplicaAssignmentModel, int),
                    DecodeError,
                >((v@, n as int)),
                Err(e) => dec_assignment(buf@, pos as int) == Err::<
                    (CreatableReplicaAssignmentModel, int),
                    DecodeError,
                >(e),
            },
    {
        match read_i32(buf, pos) {
            Ok((partition_index, p1)) => match read_i32_array(buf, p1) {
                Ok((broker_ids, p2)) => Ok(
                    (CreatableReplicaAssignment { partition_index, broker_ids }, p2),
                ),
                Err(e) => Err(e),
            },
            Err(e) => Err(e),
        }
    }
}

/// Round trip for one replica assignment.
pub proof fn lemma_assignment_round_trip(
    prefix: Seq<u8>,
    m: CreatableReplicaAssignmentModel,
    suffix: Seq<u8>,
)
    requires
        m.broker_ids.len() <= 0x7FFF_FFFF,
    ensures
        dec_assignment(prefix + enc_assignment(m) + suffix, prefix.len() as int) == Ok::<
            (CreatableReplicaAssignmentModel, int),
            DecodeError,
        >((m, prefix.len() as int + enc_assignment(m).len() as int)),
{
    let s = prefix + enc_assignment(m) + suffix;
    let a = enc_i32(m.partition_index);
    let b = enc_i32_array(m.broker_ids);
    assert(s =~= prefix + a + (b + suffix));
    crate::primitives::lemma_i32_round_trip(prefix, m.partition_index, b + suffix);
    assert(s =~= (prefix + a) + b + suffix);
    lemma_i32_array_round_trip(prefix + a, m.broker_ids, suffix);
}

} // verus!

verus! {

/// One per-topic config entry: a name and a nullable value.
#[derive(Debug, Clone, PartialEq)]
pub struct CreateableTopicConfig {
    pub name: String,
    pub value: Option<String>,
}

/// The mathematical shape of a config entry.
pub ghost struct CreateableTopicConfigModel {
    pub name: Seq<char>,
    pub value: Option<Seq<char>>,
}

impl View for CreateableTopicConfig {
    type V = CreateableTopicConfigModel;

    open spec fn view(&self) -> CreateableTopicConfigModel {
        CreateableTopicConfigModel { name: self.name@, value: opt_string_view(self.value) }
    }
}

impl DeepView for CreateableTopicConfig {
    type V = CreateableTopicConfigModel;

    open spec fn deep_view(&self) -> CreateableTopicConfigModel {
        self@
    }
}

/// Whether a config entry's strings fit their classic length prefixes.
pub open spec fn config_writable(m: CreateableTopicConfigModel) -> bool {
    &&& encode_utf8(m.name).len() <= 0x7FFF
    &&& (m.value matches Option::Some(v) ==> encode_utf8(v).len() <= 0x7FFF)
}

/// The wire bytes of one config entry: the name as a classic non-nullable
/// string, the value as a classic nullable string.
pub open spec fn enc_config(m: CreateableTopicConfigModel) -> Seq<u8> {
    enc_classic_string(Option::Some(m.name)) + enc_classic_string(m.value)
}

/// Spec-level decoder for one config entry at `pos`.
pub open spec fn dec_config(s: Seq<u8>, pos: int) -> Result<
    (CreateableTopicConfigModel, int),
    DecodeError,
> {
    match dec_classic_string(s, pos, false) {
        Ok((Option::Some(name), p1)) => match dec_classic_string(s, p1, true) {
            Ok((value, p2)) => Ok((CreateableTopicConfigModel { name, value }, p2)),
            Err(e) => Err(e),
        },
        Ok((Option::None, _)) => Err(DecodeError::Malformed),
        Err(e) => Err(e),
    }
}

impl CreateableTopicConfig {
    /// A config entry with the given fields.
    pub fn new(name: String, value: Option<String>) -> (r: CreateableTopicConfig)
        ensures
            r@.name == name@,
            r@.value == opt_string_view(value),
    {
        CreateableTopicConfig { name, value }
    }

    /// Appends the wire bytes of this config entry.
    pub fn write(&self, out: &mut Vec<u8>)
        requires
            config_writable(self@),
        ensures
            final(out)@ == old(out)@ + enc_config(self@),
    {
        let r1 = write_classic_string(out, Option::Some(self.name.as_str()), false);
        match r1 {
            Ok(()) => {},
            Err(_) => unreached(),
        }
        let val: Option<&str> = match &self.value {
            Option::Some(v) => Option::Some(v.as_str()),
            Option::None => Option::None,
        };
        let r2 = write_classic_string(out, val, true);
        match r2 {
            Ok(()) => {},
            Err(_) => unreached(),
        }
        assert(out@ =~= old(out)@ + enc_config(self@));
    }

    /// Reads a config entry at `pos`.
    pub fn read(buf: &Vec<u8>, pos: usize) -> (r: Result<
        (CreateableTopicConfig, usize),
        DecodeError,
    >)
        ensures
            match r {
                Ok((v, n)) => dec_config(buf@, pos as int) == Ok::<
                    (CreateableTopicConfigModel, int),
                    DecodeError,
                >((v@, n as int)),
                Err(e) => dec_config(buf@, pos as int) == Err::<
                    (CreateableTopicConfigModel, int),
                    DecodeError,
                >(e),
            },
    {
        match read_classic_string(buf, pos, false) {
            Ok((Option::Some(name), p1)) => match read_classic_string(buf, p1, true) {
                Ok((value, p2)) => Ok((CreateableTopicConfig { name, value }, p2)),
                Err(e) => Err(e),
            },
            Ok((Option::None, _)) => Err(DecodeError::Malformed),
            Err(e) => Err(e),
        }
    }
}

/// Round trip for one config entry.
pub proof fn lemma_config_round_trip(
    prefix: Seq<u8>,
    m: CreateableTopicConfigModel,
    suffix: Seq<u8>,
)
    requires
        config_writable(m),
    ensures
        dec_config(prefix + enc_config(m) + suffix, prefix.len() as int) == Ok::<
            (CreateableTopicConfigModel, int),
            DecodeError,
        >((m, prefix.len() as int + enc_config(m).len() as int)),
{
    let s = prefix + enc_config(m) + suffix;
    let a = enc_classic_string(Option::Some(m.name));
    let b = enc_classic_string(m.value);
    assert(s =~= prefix + a + (b + suffix));
    crate::strings::lemma_classic_string_round_trip(prefix, Option::Some(m.name), b + suffix, false);
    assert(s =~= (prefix + a) + b + suffix);
    crate::strings::lemma_classic_string_round_trip(prefix + a, m.value, suffix, true);
}

} // verus!

verus! {

/// One topic to create: its name, partition and replication settings,
/// explicit replica assignments and configs.
#[derive(Debug, Clone, PartialEq)]
pub struct CreatableTopic {
    pub name: String,
    pub num_partitions: i32,
    pub replication_factor: i16,
    pub assignments: Vec<CreatableReplicaAssignment>,
    pub configs: Vec<CreateableTopicConfig>,
}

/// The mathematical shape of a topic to create.
pub ghost struct CreatableTopicModel {
    pub name: Seq<char>,
    pub num_partitions: i32,
    pub replication_factor: i16,
    pub assignments: Seq<CreatableReplicaAssignmentModel>,
    pub configs: Seq<CreateableTopicConfigModel>,
}

impl View for CreatableTopic {
    type V = CreatableTopicModel;

    open spec fn view(&self) -> CreatableTopicModel {
        CreatableTopicModel {
            name: self.name@,
            num_partitions: self.num_partitions,
            replication_factor: self.replication_factor,
            assignments: self.assignments.deep_view(),
            configs: self.configs.deep_view(),
        }
    }
}

impl DeepView for CreatableTopic {
    type V = CreatableTopicModel;

    open spec fn deep_view(&self) -> CreatableTopicModel {
        self@
    }
}

/// Whether a topic's strings and arrays fit their classic length prefixes.
pub open spec fn topic_writable(m: CreatableTopicModel) -> bool {
    &&& encode_utf8(m.name).len() <= 0x7FFF
    &&& m.assignments.len() <= 0x7FFF_FFFF
    &&& m.configs.len() <= 0x7FFF_FFFF
    &&& forall|i: int|
        0 <= i < m.assignments.len() ==> #[trigger] m.assignments[i].broker_ids.len()
            <= 0x7FFF_FFFF
    &&& forall|i: int| 0 <= i < m.configs.len() ==> config_writable(#[trigger] m.configs[i])
}

/// The concatenated wire bytes of a run of replica assignments.
pub open spec fn enc_assignments_seq(vs: Seq<CreatableReplicaAssignmentModel>) -> Seq<u8>
    decreases vs.len(),
{
    if vs.len() == 0 {
        Seq::empty()
    } else {
        enc_assignment(vs[0]) + enc_assignments_seq(vs.drop_first())
    }
}

/// The concatenated wire bytes of a run of config entries.
pub open spec fn enc_configs_seq(vs: Seq<CreateableTopicConfigModel>) -> Seq<u8>
    decreases vs.len(),
{
    if vs.len() == 0 {
        Seq::empty()
    } else {
        enc_config(vs[0]) + enc_configs_seq(vs.drop_first())
    }
}

/// The wire bytes of one topic: name, partitions, replication factor, the
/// assignment array, the config array.
pub open spec fn enc_topic(m: CreatableTopicModel) -> Seq<u8> {
    enc_classic_string(Option::Some(m.name)) + enc_i32(m.num_partitions) + enc_i16(
        m.replication_factor,
    ) + enc_i32(m.assignments.len() as i32) + enc_assignments_seq(m.assignments) + enc_i32(
        m.configs.len() as i32,
    ) + enc_configs_seq(m.configs)
}

/// Spec-level decoder for `k` replica assignments in a row.
pub open spec fn dec_assignments_entries(s: Seq<u8>, pos: int, k: nat) -> Result<
    (Seq<CreatableReplicaAssignmentModel>, int),
    DecodeError,
>
    decreases k,
{
    if k == 0 {
        Ok((Seq::empty(), pos))
    } else {
        match dec_assignment(s, pos) {
            Ok((v, p1)) => match dec_assignments_entries(s, p1, (k - 1) as nat) {
                Ok((rest, p2)) => Ok((seq![v] + rest, p2)),
                Err(e) => Err(e),
            },
            Err(e) => Err(e),
        }
    }
}

/// Spec-level decoder for `k` config entries in a row.
pub open spec fn dec_configs_entries(s: Seq<u8>, pos: int, k: nat) -> Result<
    (Seq<CreateableTopicConfigModel>, int),
    DecodeError,
>
    decreases k,
{
    if k == 0 {
        Ok((Seq::empty(), pos))
    } else {
        match dec_config(s, pos) {
            Ok((v, p1)) => match dec_configs_entries(s, p1, (k - 1) as nat) {
                Ok((rest, p2)) => Ok((seq![v] + rest, p2)),
                Err(e) => Err(e),
            },
            Err(e) => Err(e),
        }
    }
}

/// Spec-level decoder for one topic at `pos`.
pub open spec fn dec_topic(s: Seq<u8>, pos: int) -> Result<(CreatableTopicModel, int), DecodeError> {
    match dec_classic_string(s, pos, false) {
        Ok((Option::Some(name), p1)) => match dec_i32(s, p1) {
            Ok((num_partitions, p2)) => match dec_i16(s, p2) {
                Ok((replication_factor, p3)) => match dec_i32(s, p3) {
                    Ok((na, p4)) => if na < 0 {
                        Err(DecodeError::Malformed)
                    } else {
                        match dec_assignments_entries(s, p4, na as nat) {
                            Ok((assignments, p5)) => match dec_i32(s, p5) {
                                Ok((nc, p6)) => if nc < 0 {
                                    Err(DecodeError::Malformed)
                                } else {
                                    match dec_configs_entries(s, p6, nc as nat) {
                                        Ok((configs, p7)) => Ok(
                                            (
                                                CreatableTopicModel {
                                                    name,
                                                    num_partitions,
                                                    replication_factor,
                                                    assignments,
                                                    configs,
                                                },
                                                p7,
                                            ),
                                        ),
                                        Err(e) => Err(e),
                                    }
                                },
                                Err(e) => Err(e),
                            },
                            Err(e) => Err(e),
                        }
                    },
                    Err(e) => Err(e),
                },
                Err(e) => Err(e),
            },
            Err(e) => Err(e),
        },
        Ok((Option::None, _)) => Err(DecodeError::Malformed),
        Err(e) => Err(e),
    }
}

/// Appending an assignment to a run appends its bytes to the encoding.
pub proof fn lemma_assignments_seq_snoc(
    vs: Seq<CreatableReplicaAssignmentModel>,
    v: CreatableReplicaAssignmentModel,
)
    ensures
        enc_assignments_seq(vs.push(v)) == enc_assignments_seq(vs) + enc_assignment(v),
    decreases vs.len(),
{
    let p = vs.push(v);
    assert(enc_assignments_seq(p) == enc_assignment(p[0]) + enc_assignments_seq(p.drop_first()));
    if vs.len() == 0 {
        assert(p.drop_first() =~= Seq::<CreatableReplicaAssignmentModel>::empty());
        assert(enc_assignments_seq(Seq::<CreatableReplicaAssignmentModel>::empty()) == Seq::<
            u8,
        >::empty());
        assert(p[0] == v);
        assert(enc_assignment(v) + Seq::<u8>::empty() =~= Seq::<u8>::empty() + enc_assignment(v));
    } else {
        assert(p.drop_first() =~= vs.drop_first().push(v));
        lemma_assignments_seq_snoc(vs.drop_first(), v);
        assert(p[0] == vs[0]);
        assert(enc_assignment(vs[0]) + (enc_assignments_seq(vs.drop_first()) + enc_assignment(v))
            =~= (enc_assignment(vs[0]) + enc_assignments_seq(vs.drop_first())) + enc_assignment(
            v,
        ));
    }
}

/// Appending a config entry to a run appends its bytes to the encoding.
pub proof fn lemma_configs_seq_snoc(
    vs: Seq<CreateableTopicConfigModel>,
    v: CreateableTopicConfigModel,
)
    ensures
        enc_configs_seq(vs.push(v)) == enc_configs_seq(vs) + enc_config(v),
    decreases vs.len(),
{
    let p = vs.push(v);
    assert(enc_configs_seq(p) == enc_config(p[0]) + enc_configs_seq(p.drop_first()));
    if vs.len() == 0 {
        assert(p.drop_first() =~= Seq::<CreateableTopicConfigModel>::empty());
        assert(enc_configs_seq(Seq::<CreateableTopicConfigModel>::empty()) == Seq::<u8>::empty());
        assert(p[0] == v);
        assert(enc_config(v) + Seq::<u8>::empty() =~= Seq::<u8>::empty() + enc_config(v));
    } else {
        assert(p.drop_first() =~= vs.drop_first().push(v));
        lemma_configs_seq_snoc(vs.drop_first(), v);
        assert(p[0] == vs[0]);
        assert(enc_config(vs[0]) + (enc_configs_seq(vs.drop_first()) + enc_config(v)) =~= (
        enc_config(vs[0]) + enc_configs_seq(vs.drop_first())) + enc_config(v));
    }
}

/// Appends a run of replica assignments, in order.
#[verifier::loop_isolation(false)]
fn write_assignments(out: &mut Vec<u8>, vs: &Vec<CreatableReplicaAssignment>)
    requires
        forall|i: int| 0 <= i < vs@.len() ==> #[trigger] vs@[i].broker_ids@.len() <= 0x7FFF_FFFF,
    ensures
        final(out)@ == old(out)@ + enc_assignments_seq(vs.deep_view()),
{
    let n = vs.len();
    let mut j: usize = 0;
    while j < n
        invariant
            out@ == old(out)@ + enc_assignments_seq(vs.deep_view().take(j as int)),
            0 <= j <= n,
        decreases n - j,
    {
        proof {
            assert(vs@[j as int]@ == vs.deep_view()[j as int]);
        }
        vs[j].write(out);
        proof {
            lemma_assignments_seq_snoc(vs.deep_view().take(j as int), vs.deep_view()[j as int]);
            assert(vs.deep_view().take(j as int).push(vs.deep_view()[j as int])
                =~= vs.deep_view().take(j as int + 1));
        }
        j = j + 1;
    }
    assert(vs.deep_view().take(n as int) =~= vs.deep_view());
}

/// Appends a run of config entries, in order.
#[verifier::loop_isolation(false)]
fn write_configs(out: &mut Vec<u8>, vs: &Vec<CreateableTopicConfig>)
    requires
        forall|i: int| 0 <= i < vs.deep_view().len() ==> config_writable(
            #[trigger] vs.deep_view()[i],
        ),
    ensures
        final(out)@ == old(out)@ + enc_configs_seq(vs.deep_view()),
{
    let n = vs.len();
    let mut j: usize = 0;
    while j < n
        invariant
            out@ == old(out)@ + enc_configs_seq(vs.deep_view().take(j as int)),
            0 <= j <= n,
        decreases n - j,
    {
        proof {
            assert(vs@[j as int]@ == vs.deep_view()[j as int]);
        }
        vs[j].write(out);
        proof {
            lemma_configs_seq_snoc(vs.deep_view().take(j as int), vs.deep_view()[j as int]);
            assert(vs.deep_view().take(j as int).push(vs.deep_view()[j as int])
                =~= vs.deep_view().take(j as int + 1));
        }
        j = j + 1;
    }
    assert(vs.deep_view().take(n as int) =~= vs.deep_view());
}

impl CreatableTopic {
    /// A topic with the given fields.
    pub fn new(
        name: String,
        num_partitions: i32,
        replication_factor: i16,
        assignments: Vec<CreatableReplicaAssignment>,
        configs: Vec<CreateableTopicConfig>,
    ) -> (r: CreatableTopic)
        ensures
            r@.name == name@,
            r.num_partitions == num_partitions,
            r.replication_factor == replication_factor,
            r@.assignments == assignments.deep_view(),
            r@.configs == configs.deep_view(),
    {
        CreatableTopic { name, num_partitions, replication_factor, assignments, configs }
    }

    /// Appends the wire bytes of this topic.
    #[verifier::spinoff_prover]
    pub fn write(&self, out: &mut Vec<u8>)
        requires
            topic_writable(self@),
        ensures
            final(out)@ == old(out)@ + enc_topic(self@),
    {
        let r1 = write_classic_string(out, Option::Some(self.name.as_str()), false);
        match r1 {
            Ok(()) => {},
            Err(_) => unreached(),
        }
        write_i32(out, self.num_partitions);
        write_i16(out, self.replication_factor);
        let na = self.assignments.len();
        write_i32(out, na as i32);
        proof {
            assert forall|i: int| 0 <= i < self.assignments@.len() implies #[trigger] self.assignments@[i].broker_ids@.len() <= 0x7FFF_FFFF by {
                assert(self@.assignments[i] == self.assignments@[i]@);
                assert(self@.assignments[i].broker_ids.len() <= 0x7FFF_FFFF);
            }
        }
        write_assignments(out, &self.assignments);
        let nc = self.configs.len();
        write_i32(out, nc as i32);
        write_configs(out, &self.configs);
        assert(out@ =~= old(out)@ + enc_topic(self@));
    }

    /// Reads a topic at `pos`.
    #[verifier::loop_isolation(false)]
    pub fn read(buf: &Vec<u8>, pos: usize) -> (r: Result<(CreatableTopic, usize), DecodeError>)
        ensures
            match r {
                Ok((v, n)) => dec_topic(buf@, pos as int) == Ok::<
                    (CreatableTopicModel, int),
                    DecodeError,
                >((v@, n as int)),
                Err(e) => dec_topic(buf@, pos as int) == Err::<
                    (CreatableTopicModel, int),
                    DecodeError,
                >(e),
            },
    {
        let ghost s = buf@;
        let name: String;
        let num_partitions: i32;
        let replication_factor: i16;
        let na: i32;
        let mut cur: usize;
        match read_classic_string(buf, pos, false) {
            Ok((Option::Some(nm), p1)) => match read_i32(buf, p1) {
                Ok((np, p2)) => match read_i16(buf, p2) {
                    Ok((rf, p3)) => match read_i32(buf, p3) {
                        Ok((n, p4)) => {
                            name = nm;
                            num_partitions = np;
                            replication_factor = rf;
                            na = n;
                            cur = p4;
                        },
                        Err(e) => {
                            return Err(e);
                        },
                    },
                    Err(e) => {
                        return Err(e);
                    },
                },
                Err(e) => {
                    return Err(e);
                },
            },
            Ok((Option::None, _)) => {
                return Err(DecodeError::Malformed);
            },
            Err(e) => {
                return Err(e);
            },
        }
        if na < 0 {
            return Err(DecodeError::Malformed);
        }
        let ghost p4 = cur as int;
        let mut assignments: Vec<CreatableReplicaAssignment> = Vec::new();
        let mut i: i32 = 0;
        while i < na
            invariant
                0 <= i <= na,
                dec_assignments_entries(s, p4, na as nat) == (match dec_assignments_entries(
                    s,
                    cur as int,
                    (na - i) as nat,
                ) {
                    Ok((rest, p)) => Ok::<(Seq<CreatableReplicaAssignmentModel>, int), DecodeError>(
                        (assignments.deep_view() + rest, p),
                    ),
                    Err(e) => Err::<(Seq<CreatableReplicaAssignmentModel>, int), DecodeError>(e),
                }),
            decreases na - i,
        {
            match CreatableReplicaAssignment::read(buf, cur) {
                Ok((v, p5)) => {
                    let ghost acc_view = assignments.deep_view();
                    proof {
                        let rest_dec = dec_assignments_entries(s, p5 as int, (na - i - 1) as nat);
                        match rest_dec {
                            Ok((rest, p)) => {
                                assert(acc_view.push(v@) + rest =~= acc_view + (seq![v@] + rest));
                            },
                            Err(_) => {},
                        }
                    }
                    assignments.push(v);
                    cur = p5;
                    proof {
                        assert(assignments.deep_view() =~= acc_view.push(v@));
                    }
                    i = i + 1;
                },
                Err(e) => {
                    return Err(e);
                },
            }
        }
        assert(assignments.deep_view() + Seq::<CreatableReplicaAssignmentModel>::empty()
            =~= assignments.deep_view());
        let nc: i32;
        match read_i32(buf, cur) {
            Ok((n, p6)) => {
                nc = n;
                cur = p6;
            },
            Err(e) => {
                return Err(e);
            },
        }
        if nc < 0 {
            return Err(DecodeError::Malformed);
        }
        let ghost p6 = cur as int;
        let mut configs: Vec<CreateableTopicConfig> = Vec::new();
        let mut c: i32 = 0;
        while c < nc
            invariant
                0 <= c <= nc,
                dec_configs_entries(s, p6, nc as nat) == (match dec_configs_entries(
                    s,
                    cur as int,
                    (nc - c) as nat,
                ) {
                    Ok((rest, p)) => Ok::<(Seq<CreateableTopicConfigModel>, int), DecodeError>(
                        (configs.deep_view() + rest, p),
                    ),
                    Err(e) => Err::<(Seq<CreateableTopicConfigModel>, int), DecodeError>(e),
                }),
            decreases nc - c,
        {
            match CreateableTopicConfig::read(buf, cur) {
                Ok((v, p7)) => {
                    let ghost acc_view = configs.deep_view();
                    proof {
                        let rest_dec = dec_configs_entries(s, p7 as int, (nc - c - 1) as nat);
                        match rest_dec {
                            Ok((rest, p)) => {
                                assert(acc_view.push(v@) + rest =~= acc_view + (seq![v@] + rest));
                            },
                            Err(_) => {},
                        }
                    }
                    configs.push(v);
                    cur = p7;
                    proof {
                        assert(configs.deep_view() =~= acc_view.push(v@));
                    }
                    c = c + 1;
                },
                Err(e) => {
                    return Err(e);
                },
            }
        }
        assert(configs.deep_view() + Seq::<CreateableTopicConfigModel>::empty()
            =~= configs.deep_view());
        Ok(
            (
                CreatableTopic { name, num_partitions, replication_factor, assignments, configs },
                cur,
            ),
        )
    }
}

} // verus!

verus! {

/// A CreateTopics request at version 0: the topics to create and how long
/// the broker may take.
#[derive(Debug, Clone, PartialEq)]
pub struct CreateTopicsRequest {
    pub topics: Vec<CreatableTopic>,
    pub timeout_ms: i32,
}

/// The mathematical shape of a CreateTopics request.
pub ghost struct CreateTopicsRequestModel {
    pub topics: Seq<CreatableTopicModel>,
    pub timeout_ms: i32,
}

impl View for CreateTopicsRequest {
    type V = CreateTopicsRequestModel;

    open spec fn view(&self) -> CreateTopicsRequestModel {
        CreateTopicsRequestModel { topics: self.topics.deep_view(), timeout_ms: self.timeout_ms }
    }
}

/// Whether every topic of the request fits its classic length prefixes.
pub open spec fn request_writable(m: CreateTopicsRequestModel) -> bool {
    &&& m.topics.len() <= 0x7FFF_FFFF
    &&& forall|i: int| 0 <= i < m.topics.len() ==> topic_writable(#[trigger] m.topics[i])
}

/// The concatenated wire bytes of a run of topics.
pub open spec fn enc_topics_seq(vs: Seq<CreatableTopicModel>) -> Seq<u8>
    decreases vs.len(),
{
    if vs.len() == 0 {
        Seq::empty()
    } else {
        enc_topic(vs[0]) + enc_topics_seq(vs.drop_first())
    }
}

/// The wire bytes of a version 0 request: the topic array, the timeout.
pub open spec fn enc_create_topics_request(m: CreateTopicsRequestModel) -> Seq<u8> {
    enc_i32(m.topics.len() as i32) + enc_topics_seq(m.topics) + enc_i32(m.timeout_ms)
}

/// Spec-level decoder for `k` topics in a row.
pub open spec fn dec_topics_entries(s: Seq<u8>, pos: int, k: nat) -> Result<
    (Seq<CreatableTopicModel>, int),
    DecodeError,
>
    decreases k,
{
    if k == 0 {
        Ok((Seq::empty(), pos))
    } else {
        match dec_topic(s, pos) {
            Ok((v, p1)) => match dec_topics_entries(s, p1, (k - 1) as nat) {
                Ok((rest, p2)) => Ok((seq![v] + rest, p2)),
                Err(e) => Err(e),
            },
            Err(e) => Err(e),
        }
    }
}

/// Spec-level decoder for a version 0 request at `pos`.
pub open spec fn dec_create_topics_request(s: Seq<u8>, pos: int) -> Result<
    (CreateTopicsRequestModel, int),
    DecodeError,
> {
    match dec_i32(s, pos) {
        Ok((n, p1)) => if n < 0 {
            Err(DecodeError::Malformed)
        } else {
            match dec_topics_entries(s, p1, n as nat) {
                Ok((topics, p2)) => match dec_i32(s, p2) {
                    Ok((timeout_ms, p3)) => Ok(
                        (CreateTopicsRequestModel { topics, timeout_ms }, p3),
                    ),
                    Err(e) => Err(e),
                },
                Err(e) => Err(e),
            }
        },
        Err(e) => Err(e),
    }
}

/// Appending a topic to a run appends its bytes to the encoding.
pub proof fn lemma_topics_seq_snoc(vs: Seq<CreatableTopicModel>, v: CreatableTopicModel)
    ensures
        enc_topics_seq(vs.push(v)) == enc_topics_seq(vs) + enc_topic(v),
    decreases vs.len(),
{
    let p = vs.push(v);
    assert(enc_topics_seq(p) == enc_topic(p[0]) + enc_topics_seq(p.drop_first()));
    if vs.len() == 0 {
        assert(p.drop_first() =~= Seq::<CreatableTopicModel>::empty());
        assert(enc_topics_seq(Seq::<CreatableTopicModel>::empty()) == Seq::<u8>::empty());
        assert(p[0] == v);
        assert(enc_topic(v) + Seq::<u8>::empty() =~= Seq::<u8>::empty() + enc_topic(v));
    } else {
        assert(p.drop_first() =~= vs.drop_first().push(v));
        lemma_topics_seq_snoc(vs.drop_first(), v);
        assert(p[0] == vs[0]);
        assert(enc_topic(vs[0]) + (enc_topics_seq(vs.drop_first()) + enc_topic(v)) =~= (enc_topic(
            vs[0],
        ) + enc_topics_seq(vs.drop_first())) + enc_topic(v));
    }
}

impl CreateTopicsRequest {
    /// A request with the given topics and timeout.
    pub fn new(topics: Vec<CreatableTopic>, timeout_ms: i32) -> (r: CreateTopicsRequest)
        ensures
            r@.topics == topics.deep_view(),
            r.timeout_ms == timeout_ms,
    {
        CreateTopicsRequest { topics, timeout_ms }
    }

    /// Appends the wire bytes of this request.
    #[verifier::loop_isolation(false)]
    #[verifier::spinoff_prover]
    pub fn write(&self, out: &mut Vec<u8>)
        requires
            request_writable(self@),
        ensures
            final(out)@ == old(out)@ + enc_create_topics_request(self@),
    {
        let n = self.topics.len();
        write_i32(out, n as i32);
        let ghost before = out@;
        let mut j: usize = 0;
        while j < n
            invariant
                out@ == before + enc_topics_seq(self@.topics.take(j as int)),
                0 <= j <= n,
            decreases n - j,
        {
            proof {
                assert(self.topics@[j as int]@ == self@.topics[j as int]);
            }
            self.topics[j].write(out);
            proof {
                lemma_topics_seq_snoc(self@.topics.take(j as int), self@.topics[j as int]);
                assert(self@.topics.take(j as int).push(self@.topics[j as int])
                    =~= self@.topics.take(j as int + 1));
            }
            j = j + 1;
        }
        assert(self@.topics.take(n as int) =~= self@.topics);
        write_i32(out, self.timeout_ms);
        assert(out@ =~= old(out)@ + enc_create_topics_request(self@));
    }

    /// Reads a version 0 request at `pos`.
    #[verifier::loop_isolation(false)]
    #[verifier::spinoff_prover]
    pub fn read(buf: &Vec<u8>, pos: usize) -> (r: Result<(CreateTopicsRequest, usize), DecodeError>)
        ensures
            match r {
                Ok((v, n)) => dec_create_topics_request(buf@, pos as int) == Ok::<
                    (CreateTopicsRequestModel, int),
                    DecodeError,
                >((v@, n as int)),
                Err(e) => dec_create_topics_request(buf@, pos as int) == Err::<
                    (CreateTopicsRequestModel, int),
                    DecodeError,
                >(e),
            },
    {
        let ghost s = buf@;
        let count: i32;
        let mut cur: usize;
        match read_i32(buf, pos) {
            Ok((n, p1)) => {
                count = n;
                cur = p1;
            },
            Err(e) => {
                return Err(e);
            },
        }
        if count < 0 {
            return Err(DecodeError::Malformed);
        }
        let ghost p1 = cur as int;
        let mut topics: Vec<CreatableTopic> = Vec::new();
        let mut i: i32 = 0;
        while i < count
            invariant
                0 <= i <= count,
                dec_topics_entries(s, p1, count as nat) == (match dec_topics_entries(
                    s,
                    cur as int,
                    (count - i) as nat,
                ) {
                    Ok((rest, p)) => Ok::<(Seq<CreatableTopicModel>, int), DecodeError>(
                        (topics.deep_view() + rest, p),
                    ),
                    Err(e) => Err::<(Seq<CreatableTopicModel>, int), DecodeError>(e),
                }),
            decreases count - i,
        {
            match CreatableTopic::read(buf, cur) {
                Ok((v, p2)) => {
                    let ghost acc_view = topics.deep_view();
                    proof {
                        let rest_dec = dec_topics_entries(s, p2 as int, (count - i - 1) as nat);
                        match rest_dec {
                            Ok((rest, p)) => {
                                assert(acc_view.push(v@) + rest =~= acc_view + (seq![v@] + rest));
                            },
                            Err(_) => {},
                        }
                    }
                    topics.push(v);
                    cur = p2;
                    proof {
                        assert(topics.deep_view() =~= acc_view.push(v@));
                    }
                    i = i + 1;
                },
                Err(e) => {
                    return Err(e);
                },
            }
        }
        assert(topics.deep_view() + Seq::<CreatableTopicModel>::empty() =~= topics.deep_view());
        match read_i32(buf, cur) {
            Ok((timeout_ms, p3)) => Ok((CreateTopicsRequest { topics, timeout_ms }, p3)),
            Err(e) => Err(e),
        }
    }
}

} // verus!

verus! {

/// Round trip for a run of replica assignments.
pub proof fn lemma_assignments_entries_round_trip(
    prefix: Seq<u8>,
    vs: Seq<CreatableReplicaAssignmentModel>,
    suffix: Seq<u8>,
)
    requires
        forall|i: int| 0 <= i < vs.len() ==> #[trigger] vs[i].broker_ids.len() <= 0x7FFF_FFFF,
    ensures
        dec_assignments_entries(
            prefix + enc_assignments_seq(vs) + suffix,
            prefix.len() as int,
            vs.len(),
        ) == Ok::<(Seq<CreatableReplicaAssignmentModel>, int), DecodeError>(
            (vs, prefix.len() as int + enc_assignments_seq(vs).len() as int),
        ),
    decreases vs.len(),
{
    let s = prefix + enc_assignments_seq(vs) + suffix;
    let p = prefix.len() as int;
    if vs.len() == 0 {
        assert(s =~= prefix + suffix);
        assert(vs =~= Seq::<CreatableReplicaAssignmentModel>::empty());
    } else {
        let head = enc_assignment(vs[0]);
        let tail = enc_assignments_seq(vs.drop_first());
        assert(s =~= prefix + head + (tail + suffix));
        lemma_assignment_round_trip(prefix, vs[0], tail + suffix);
        assert(s =~= (prefix + head) + tail + suffix);
        lemma_assignments_entries_round_trip(prefix + head, vs.drop_first(), suffix);
        assert(seq![vs[0]] + vs.drop_first() =~= vs);
        assert(enc_assignments_seq(vs).len() == head.len() + tail.len());
    }
}

/// Round trip for a run of config entries.
pub proof fn lemma_configs_entries_round_trip(
    prefix: Seq<u8>,
    vs: Seq<CreateableTopicConfigModel>,
    suffix: Seq<u8>,
)
    requires
        forall|i: int| 0 <= i < vs.len() ==> config_writable(#[trigger] vs[i]),
    ensures
        dec_configs_entries(prefix + enc_configs_seq(vs) + suffix, prefix.len() as int, vs.len())
            == Ok::<(Seq<CreateableTopicConfigModel>, int), DecodeError>(
            (vs, prefix.len() as int + enc_configs_seq(vs).len() as int),
        ),
    decreases vs.len(),
{
    let s = prefix + enc_configs_seq(vs) + suffix;
    let p = prefix.len() as int;
    if vs.len() == 0 {
        assert(s =~= prefix + suffix);
        assert(vs =~= Seq::<CreateableTopicConfigModel>::empty());
    } else {
        let head = enc_config(vs[0]);
        let tail = enc_configs_seq(vs.drop_first());
        assert(s =~= prefix + head + (tail + suffix));
        lemma_config_round_trip(prefix, vs[0], tail + suffix);
        assert(s =~= (prefix + head) + tail + suffix);
        lemma_configs_entries_round_trip(prefix + head, vs.drop_first(), suffix);
        assert(seq![vs[0]] + vs.drop_first() =~= vs);
        assert(enc_configs_seq(vs).len() == head.len() + tail.len());
    }
}

/// One decoding step of the topic round trip: the name.
#[verifier::spinoff_prover]
proof fn lemma_topic_step_name(prefix: Seq<u8>, m: CreatableTopicModel, suffix: Seq<u8>)
    requires
        topic_writable(m),
    ensures
        ({
            let s = prefix + enc_topic(m) + suffix;
            let p = prefix.len() as int;
            let a = enc_classic_string(Option::Some(m.name));
            dec_classic_string(s, p, false) == Ok::<(Option<Seq<char>>, int), DecodeError>(
                (Option::Some(m.name), p + a.len() as int),
            )
        }),
{
    let s = prefix + enc_topic(m) + suffix;
    let a = enc_classic_string(Option::Some(m.name));
    let rest = enc_i32(m.num_partitions) + enc_i16(m.replication_factor) + enc_i32(
        m.assignments.len() as i32,
    ) + enc_assignments_seq(m.assignments) + enc_i32(m.configs.len() as i32) + enc_configs_seq(
        m.configs,
    );
    assert(s =~= prefix + a + (rest + suffix));
    crate::strings::lemma_classic_string_round_trip(
        prefix,
        Option::Some(m.name),
        rest + suffix,
        false,
    );
}

/// One decoding step of the topic round trip: the fixed numbers and the
/// assignment array.
#[verifier::spinoff_prover]
#[verifier::rlimit(100)]
proof fn lemma_topic_step_middle(prefix: Seq<u8>, m: CreatableTopicModel, suffix: Seq<u8>)
    requires
        topic_writable(m),
    ensures
        ({
            let s = prefix + enc_topic(m) + suffix;
            let p = prefix.len() as int;
            let q = p + enc_classic_string(Option::Some(m.name)).len() as int;
            let qa = q + 4 + 2 + 4;
            &&& dec_i32(s, q) == Ok::<(i32, int), DecodeError>((m.num_partitions, q + 4))
            &&& dec_i16(s, q + 4) == Ok::<(i16, int), DecodeError>((m.replication_factor, q + 6))
            &&& dec_i32(s, q + 6) == Ok::<(i32, int), DecodeError>(
                (m.assignments.len() as i32, qa),
            )
            &&& dec_assignments_entries(s, qa, m.assignments.len()) == Ok::<
                (Seq<CreatableReplicaAssignmentModel>, int),
                DecodeError,
            >((m.assignments, qa + enc_assignments_seq(m.assignments).len() as int))
        }),
{
    let s = prefix + enc_topic(m) + suffix;
    let a = enc_classic_string(Option::Some(m.name));
    let b = enc_i32(m.num_partitions);
    let c = enc_i16(m.replication_factor);
    let d = enc_i32(m.assignments.len() as i32);
    let e = enc_assignments_seq(m.assignments);
    let f = enc_i32(m.configs.len() as i32);
    let g = enc_configs_seq(m.configs);
    assert(s =~= (prefix + a) + b + (c + d + e + f + g + suffix));
    crate::primitives::lemma_i32_round_trip(prefix + a, m.num_partitions, c + d + e + f + g
        + suffix);
    assert(s =~= ((prefix + a) + b) + c + (d + e + f + g + suffix));
    crate::primitives::lemma_i16_round_trip((prefix + a) + b, m.replication_factor, d + e + f + g
        + suffix);
    assert(s =~= (((prefix + a) + b) + c) + d + (e + f + g + suffix));
    crate::primitives::lemma_i32_round_trip(
        ((prefix + a) + b) + c,
        m.assignments.len() as i32,
        e + f + g + suffix,
    );
    assert(s =~= ((((prefix + a) + b) + c) + d) + e + (f + g + suffix));
    lemma_assignments_entries_round_trip(
        (((prefix + a) + b) + c) + d,
        m.assignments,
        f + g + suffix,
    );
}

/// One decoding step of the topic round trip: the config array.
#[verifier::spinoff_prover]
#[verifier::rlimit(100)]
proof fn lemma_topic_step_configs(prefix: Seq<u8>, m: CreatableTopicModel, suffix: Seq<u8>)
    requires
        topic_writable(m),
    ensures
        ({
            let s = prefix + enc_topic(m) + suffix;
            let p = prefix.len() as int;
            let qc = p + enc_classic_string(Option::Some(m.name)).len() as int + 10
                + enc_assignments_seq(m.assignments).len() as int;
            &&& dec_i32(s, qc) == Ok::<(i32, int), DecodeError>(
                (m.configs.len() as i32, qc + 4),
            )
            &&& dec_configs_entries(s, qc + 4, m.configs.len()) == Ok::<
                (Seq<CreateableTopicConfigModel>, int),
                DecodeError,
            >((m.configs, qc + 4 + enc_configs_seq(m.configs).len() as int))
        }),
{
    let s = prefix + enc_topic(m) + suffix;
    let a = enc_classic_string(Option::Some(m.name));
    let b = enc_i32(m.num_partitions);
    let c = enc_i16(m.replication_factor);
    let d = enc_i32(m.assignments.len() as i32);
    let e = enc_assignments_seq(m.assignments);
    let f = enc_i32(m.configs.len() as i32);
    let g = enc_configs_seq(m.configs);
    assert(s =~= (((((prefix + a) + b) + c) + d) + e) + f + (g + suffix));
    crate::primitives::lemma_i32_round_trip(
        ((((prefix + a) + b) + c) + d) + e,
        m.configs.len() as i32,
        g + suffix,
    );
    assert(s =~= ((((((prefix + a) + b) + c) + d) + e) + f) + g + suffix);
    lemma_configs_entries_round_trip(
        (((((prefix + a) + b) + c) + d) + e) + f,
        m.configs,
        suffix,
    );
}

/// Round trip for one topic.
#[verifier::spinoff_prover]
#[verifier::rlimit(100)]
pub proof fn lemma_topic_round_trip(prefix: Seq<u8>, m: CreatableTopicModel, suffix: Seq<u8>)
    requires
        topic_writable(m),
    ensures
        dec_topic(prefix + enc_topic(m) + suffix, prefix.len() as int) == Ok::<
            (CreatableTopicModel, int),
            DecodeError,
        >((m, prefix.len() as int + enc_topic(m).len() as int)),
{
    let s = prefix + enc_topic(m) + suffix;
    let p = prefix.len() as int;
    lemma_topic_step_name(prefix, m, suffix);
    lemma_topic_step_middle(prefix, m, suffix);
    lemma_topic_step_configs(prefix, m, suffix);
    assert(enc_topic(m).len() == enc_classic_string(Option::Some(m.name)).len() + 14
        + enc_assignments_seq(m.assignments).len() + enc_configs_seq(m.configs).len());
}

/// Round trip for a run of topics.
#[verifier::spinoff_prover]
#[verifier::rlimit(100)]
pub proof fn lemma_topics_entries_round_trip(
    prefix: Seq<u8>,
    vs: Seq<CreatableTopicModel>,
    suffix: Seq<u8>,
)
    requires
        forall|i: int| 0 <= i < vs.len() ==> topic_writable(#[trigger] vs[i]),
    ensures
        dec_topics_entries(prefix + enc_topics_seq(vs) + suffix, prefix.len() as int, vs.len())
            == Ok::<(Seq<CreatableTopicModel>, int), DecodeError>(
            (vs, prefix.len() as int + enc_topics_seq(vs).len() as int),
        ),
    decreases vs.len(),
{
    let s = prefix + enc_topics_seq(vs) + suffix;
    let p = prefix.len() as int;
    if vs.len() == 0 {
        assert(s =~= prefix + suffix);
        assert(vs =~= Seq::<CreatableTopicModel>::empty());
    } else {
        let head = enc_topic(vs[0]);
        let tail = enc_topics_seq(vs.drop_first());
        assert(s =~= prefix + head + (tail + suffix));
        lemma_topic_round_trip(prefix, vs[0], tail + suffix);
        assert(s =~= (prefix + head) + tail + suffix);
        lemma_topics_entries_round_trip(prefix + head, vs.drop_first(), suffix);
        assert(seq![vs[0]] + vs.drop_first() =~= vs);
        assert(enc_topics_seq(vs).len() == head.len() + tail.len());
    }
}

/// The round-trip law for the version 0 CreateTopics request.
#[verifier::spinoff_prover]
#[verifier::rlimit(100)]
pub proof fn lemma_create_topics_request_round_trip(
    prefix: Seq<u8>,
    m: CreateTopicsRequestModel,
    suffix: Seq<u8>,
)
    requires
        request_writable(m),
    ensures
        dec_create_topics_request(prefix + enc_create_topics_request(m) + suffix, prefix.len() as int)
            == Ok::<(CreateTopicsRequestModel, int), DecodeError>(
            (m, prefix.len() as int + enc_create_topics_request(m).len() as int),
        ),
{
    let s = prefix + enc_create_topics_request(m) + suffix;
    let p = prefix.len() as int;
    let a = enc_i32(m.topics.len() as i32);
    let body = enc_topics_seq(m.topics);
    let t = enc_i32(m.timeout_ms);
    assert(s =~= prefix + a + (body + t + suffix));
    crate::primitives::lemma_i32_round_trip(prefix, m.topics.len() as i32, body + t + suffix);
    assert(s =~= (prefix + a) + body + (t + suffix));
    lemma_topics_entries_round_trip(prefix + a, m.topics, t + suffix);
    assert(s =~= ((prefix + a) + body) + t + suffix);
    crate::primitives::lemma_i32_round_trip((prefix + a) + body, m.timeout_ms, suffix);
    assert(enc_create_topics_request(m).len() == 4 + body.len() + 4);
}

} // verus!
