//! The SPI front end: how one interface request becomes pin changes and bus
//! transfers.
//!
//! The pins and the bus are the caller's hardware; the library decides the
//! steps of a request, and the caller performs them in order, stopping at
//! the first one that fails.

use vstd::prelude::*;

verus! {

/// `Interface` implementation for SPI interfaces: the bus, the chip select
/// pin, the data/command pin, and the largest number of bytes that the bus
/// takes in one transfer.
pub struct SpiInterface<SPI, CS, DC> {
    spi: SPI,
    cs: CS,
    dc: DC,
    max_transfer_size: usize,
}

/// One step of sending a command and its data over SPI.
#[derive(Clone, Copy, Debug, PartialEq, Eq, Structural)]
pub enum SpiStep {
    /// Drive chip select low: the controller listens.
    SelectChip,
    /// Drive data/command low: the next bytes are a command.
    CommandMode,
    /// Transfer the command byte.
    WriteCommand(u8),
    /// Drive data/command high: the next bytes are data.
    DataMode,
    /// Transfer the data bytes in positions `start..end`.
    WriteData(usize, usize),
    /// Drive chip select high: the controller stops listening.
    ReleaseChip,
}

/// The transfers of data positions `start..len`, in pieces of `max` bytes,
/// the last one possibly shorter.
pub open spec fn data_steps(start: nat, len: nat, max: nat) -> Seq<SpiStep>
    decreases len - start,
{
    if start >= len || max == 0 {
        Seq::empty()
    } else {
        let end = if len - start > max { start + max } else { len };
        seq![SpiStep::WriteData(start as usize, end as usize)] + data_steps(end as nat, len, max)
    }
}

/// The steps that send `command` with `len` data bytes, in transfers of at
/// most `max` bytes.
pub open spec fn write_steps(command: u8, len: nat, max: nat) -> Seq<SpiStep> {
    seq![SpiStep::SelectChip, SpiStep::CommandMode, SpiStep::WriteCommand(command), SpiStep::DataMode]
        + data_steps(0, len, max) + seq![SpiStep::ReleaseChip]
}

/// The bytes that a run of steps puts on the bus while data/command is high,
/// for the data `data`.
pub open spec fn payload(data: Seq<u8>, steps: Seq<SpiStep>) -> Seq<u8>
    decreases steps.len(),
{
    if steps.len() == 0 {
        Seq::empty()
    } else {
        let first = match steps[0] {
            SpiStep::WriteData(s, e) => data.subrange(s as int, e as int),
            _ => Seq::empty(),
        };
        first + payload(data, steps.drop_first())
    }
}

impl<SPI, CS, DC> SpiInterface<SPI, CS, DC> {
    /// The bus.
    pub closed spec fn bus(&self) -> SPI {
        self.spi
    }

    /// The chip select pin.
    pub closed spec fn chip_select(&self) -> CS {
        self.cs
    }

    /// The data/command pin.
    pub closed spec fn data_command(&self) -> DC {
        self.dc
    }

    /// The largest number of bytes sent in one bus transfer.
    pub closed spec fn transfer_limit(&self) -> nat {
        self.max_transfer_size as nat
    }

    pub fn new(spi: SPI, cs: CS, dc: DC, max_transfer_size: usize) -> (s: Self)
        ensures
            s.bus() == spi,
            s.chip_select() == cs,
            s.data_command() == dc,
            s.transfer_limit() == max_transfer_size,
    {
        Self { spi, cs, dc, max_transfer_size }
    }

    /// The largest number of bytes sent in one bus transfer.
    pub fn max_transfer_size(&self) -> (m: usize)
        ensures
            m == self.transfer_limit(),
    {
        self.max_transfer_size
    }

    /// Access to the bus and the two pins, to perform steps on them.
    pub fn parts(&mut self) -> (parts: (&mut SPI, &mut CS, &mut DC))
        ensures
            *parts.0 == old(self).bus(),
            *parts.1 == old(self).chip_select(),
            *parts.2 == old(self).data_command(),
            final(self).bus() == *final(parts.0),
            final(self).chip_select() == *final(parts.1),
            final(self).data_command() == *final(parts.2),
            final(self).transfer_limit() == old(self).transfer_limit(),
    {
        (&mut self.spi, &mut self.cs, &mut self.dc)
    }

    /// The steps that send `command` followed by `data_len` data bytes:
    /// select the chip, send the command byte in command mode, switch to
    /// data mode, send the data in transfers of at most `max_transfer_size`
    /// bytes, and release the chip.
    pub fn write_steps(&self, command: u8, data_len: usize) -> (steps: Vec<SpiStep>)
        requires
            self.transfer_limit() > 0,
        ensures
            steps@ == write_steps(command, data_len as nat, self.transfer_limit()),
    {
        let max = self.max_transfer_size;
        let mut steps: Vec<SpiStep> = Vec::new();
        steps.push(SpiStep::SelectChip);
        steps.push(SpiStep::CommandMode);
        steps.push(SpiStep::WriteCommand(command));
        steps.push(SpiStep::DataMode);
        let ghost head = steps@;
        let mut start: usize = 0;
        while start < data_len
            invariant
                start <= data_len,
                max == self.transfer_limit(),
                max > 0,
                steps@ + data_steps(start as nat, data_len as nat, max as nat) == head + data_steps(
                    0,
                    data_len as nat,
                    max as nat,
                ),
            decreases data_len - start,
        {
            let end = if data_len - start > max {
                start + max
            } else {
                data_len
            };
            let ghost before = steps@;
            steps.push(SpiStep::WriteData(start, end));
            assert(data_steps(start as nat, data_len as nat, max as nat) == seq![
                SpiStep::WriteData(start, end),
            ] + data_steps(end as nat, data_len as nat, max as nat));
            assert(steps@ + data_steps(end as nat, data_len as nat, max as nat) =~= before + (seq![
                SpiStep::WriteData(start, end),
            ] + data_steps(end as nat, data_len as nat, max as nat)));
            start = end;
        }
        assert(data_steps(start as nat, data_len as nat, max as nat) =~= Seq::<SpiStep>::empty());
        steps.push(SpiStep::ReleaseChip);
        assert(steps@ =~= write_steps(command, data_len as nat, max as nat));
        steps
    }
}

/// The data transfers from `start` cover positions `start..len` of the data
/// exactly once, in order, each with at least one and at most `max` bytes.
pub proof fn lemma_data_steps_cover(data: Seq<u8>, start: nat, max: nat)
    requires
        max > 0,
        start <= data.len(),
        data.len() <= usize::MAX,
    ensures
        payload(data, data_steps(start, data.len(), max)) == data.subrange(start as int, data.len() as int),
        forall|i: int|
            0 <= i < data_steps(start, data.len(), max).len() ==> {
                let step = #[trigger] data_steps(start, data.len(), max)[i];
                &&& step is WriteData
                &&& start <= step->WriteData_0 < step->WriteData_1 <= data.len()
                &&& step->WriteData_1 - step->WriteData_0 <= max
            },
    decreases data.len() - start,
{
    let len = data.len();
    let steps = data_steps(start, len, max);
    if start < len {
        let end: nat = if len - start > max { start + max } else { len };
        lemma_data_steps_cover(data, end, max);
        let rest = data_steps(end, len, max);
        assert(steps == seq![SpiStep::WriteData(start as usize, end as usize)] + rest);
        assert(steps.drop_first() =~= rest);
        assert(data.subrange(start as int, end as int) + data.subrange(end as int, len as int)
            =~= data.subrange(start as int, len as int));
        assert forall|i: int| 0 <= i < steps.len() implies {
            let step = #[trigger] steps[i];
            &&& step is WriteData
            &&& start <= step->WriteData_0 < step->WriteData_1 <= data.len()
            &&& step->WriteData_1 - step->WriteData_0 <= max
        } by {
            if i > 0 {
                assert(steps[i] == rest[i - 1]);
            }
        }
    } else {
        assert(data.subrange(start as int, len as int) =~= Seq::<u8>::empty());
    }
}

/// A write request puts exactly the command byte on the bus in command mode,
/// and then exactly the data, in transfers of at most `max` bytes, in data
/// mode; the chip is selected first and released last.
pub proof fn lemma_write_transfers_everything(command: u8, data: Seq<u8>, max: nat)
    requires
        max > 0,
        data.len() <= usize::MAX,
    ensures
        ({
            let steps = write_steps(command, data.len(), max);
            &&& steps.subrange(0, 4) == seq![
                SpiStep::SelectChip,
                SpiStep::CommandMode,
                SpiStep::WriteCommand(command),
                SpiStep::DataMode,
            ]
            &&& steps.last() == SpiStep::ReleaseChip
            &&& payload(data, steps) == data
            &&& forall|i: int|
                4 <= i < steps.len() - 1 ==> {
                    let step = #[trigger] steps[i];
                    &&& step is WriteData
                    &&& step->WriteData_0 < step->WriteData_1 <= data.len()
                    &&& step->WriteData_1 - step->WriteData_0 <= max
                }
        }),
{
    let head = seq![
        SpiStep::SelectChip,
        SpiStep::CommandMode,
        SpiStep::WriteCommand(command),
        SpiStep::DataMode,
    ];
    let body = data_steps(0, data.len(), max);
    let tail = seq![SpiStep::ReleaseChip];
    let steps = write_steps(command, data.len(), max);
    lemma_data_steps_cover(data, 0, max);
    assert(steps == head + body + tail);
    assert(steps.subrange(0, 4) =~= head);
    lemma_payload_append(data, head, body + tail);
    lemma_payload_append(data, body, tail);
    assert(payload(data, head) == Seq::<u8>::empty()) by {
        reveal_with_fuel(payload, 5);
        assert(head.drop_first().drop_first().drop_first().drop_first() =~= Seq::<SpiStep>::empty());
        assert(head.drop_first()[0] == SpiStep::CommandMode);
        assert(head.drop_first().drop_first()[0] == SpiStep::WriteCommand(command));
        assert(head.drop_first().drop_first().drop_first()[0] == SpiStep::DataMode);
    }
    assert(payload(data, tail) == Seq::<u8>::empty()) by {
        reveal_with_fuel(payload, 2);
        assert(tail.drop_first() =~= Seq::<SpiStep>::empty());
    }
    assert(head + body + tail =~= head + (body + tail));
    assert(data.subrange(0, data.len() as int) =~= data);
    assert(payload(data, steps) =~= data);
    assert forall|i: int| 4 <= i < steps.len() - 1 implies {
        let step = #[trigger] steps[i];
        &&& step is WriteData
        &&& step->WriteData_0 < step->WriteData_1 <= data.len()
        &&& step->WriteData_1 - step->WriteData_0 <= max
    } by {
        assert(steps[i] == body[i - 4]);
    }
}

/// The payload of two runs of steps is the payload of the first followed by
/// that of the second.
pub proof fn lemma_payload_append(data: Seq<u8>, a: Seq<SpiStep>, b: Seq<SpiStep>)
    ensures
        payload(data, a + b) == payload(data, a) + payload(data, b),
    decreases a.len(),
{
    if a.len() == 0 {
        assert(a + b =~= b);
        assert(payload(data, a) + payload(data, b) =~= payload(data, b));
    } else {
        lemma_payload_append(data, a.drop_first(), b);
        assert((a + b).drop_first() =~= a.drop_first() + b);
        assert((a + b)[0] == a[0]);
        let first = match a[0] {
            SpiStep::WriteData(s, e) => data.subrange(s as int, e as int),
            _ => Seq::empty(),
        };
        assert(payload(data, a + b) == first + payload(data, a.drop_first() + b));
        assert(first + (payload(data, a.drop_first()) + payload(data, b)) =~= (first + payload(
            data,
            a.drop_first(),
        )) + payload(data, b));
    }
}

} // verus!
