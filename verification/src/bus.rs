use vstd::prelude::*;
use vstd::slice::slice_to_vec;
use crate::pixel::{be_bytes, word_bytes};

verus! {

/// One of the three output lines that frame a transfer to the controller.
#[derive(Clone, Copy, Debug, PartialEq, Eq, Structural)]
pub enum Line {
    /// Chip select: low while the controller is addressed.
    ChipSelect,
    /// Command/data select: low for an opcode, high for data.
    DataCommand,
    /// Hardware reset.
    Reset,
}

/// One elementary request to the transport. The driver plans a list of
/// these; whoever owns the bus and the pins performs them in order and stops
/// at the first one that fails.
#[derive(Debug, PartialEq, Eq)]
pub enum Action {
    /// Drive the line high.
    SetHigh(Line),
    /// Drive the line low.
    SetLow(Line),
    /// Send the bytes over the bus as one transfer.
    Write(Vec<u8>),
    /// Block for the given number of milliseconds.
    DelayMs(u32),
}

/// A transport failure: a line could not be driven or a transfer did not go
/// through. What failed is not kept. The operation under way was abandoned
/// half-issued, and the display must be brought back to a known state, for
/// instance by a hard reset, before anything else is sent.
#[derive(Clone, Copy, Debug, PartialEq, Eq, Structural)]
pub struct ProtocolError;

/// What whoever performs a script does next.
#[derive(Clone, Copy, Debug, PartialEq, Eq, Structural)]
pub enum Progress {
    /// Perform the action at this index of the script.
    Perform(usize),
    /// Stop: every action was performed.
    Finished,
    /// Stop: the last request failed. The rest of the script is not sent.
    Failed(ProtocolError),
}

/// The mathematical content of an [`Action`].
pub enum Step {
    SetHigh(Line),
    SetLow(Line),
    Write(Seq<u8>),
    DelayMs(u32),
}

impl DeepView for Action {
    type V = Step;

    open spec fn deep_view(&self) -> Step {
        match *self {
            Action::SetHigh(line) => Step::SetHigh(line),
            Action::SetLow(line) => Step::SetLow(line),
            Action::Write(bytes) => Step::Write(bytes@),
            Action::DelayMs(ms) => Step::DelayMs(ms),
        }
    }
}

impl Clone for Action {
    /// A copy that asks the same of the transport.
    fn clone(&self) -> (copy: Action)
        ensures
            copy.deep_view() == self.deep_view(),
    {
        match self {
            Action::SetHigh(line) => Action::SetHigh(*line),
            Action::SetLow(line) => Action::SetLow(*line),
            Action::Write(bytes) => Action::Write(slice_to_vec(bytes.as_slice())),
            Action::DelayMs(ms) => Action::DelayMs(*ms),
        }
    }
}

/// A data transfer: select the chip in data mode, send `data` as one
/// transfer, release the chip.
pub open spec fn data_steps(data: Seq<u8>) -> Seq<Step> {
    seq![
        Step::SetHigh(Line::ChipSelect),
        Step::SetHigh(Line::DataCommand),
        Step::SetLow(Line::ChipSelect),
        Step::Write(data),
        Step::SetHigh(Line::ChipSelect),
    ]
}

/// A command: select the chip in command mode, send the opcode alone, then,
/// if there are parameters, switch to data mode and send them as one data
/// transfer, and release the chip.
pub open spec fn command_steps(code: u8, params: Seq<u8>) -> Seq<Step> {
    seq![
        Step::SetHigh(Line::ChipSelect),
        Step::SetLow(Line::DataCommand),
        Step::SetLow(Line::ChipSelect),
        Step::Write(seq![code]),
    ] + (if params.len() > 0 {
        seq![Step::SetHigh(Line::DataCommand)] + data_steps(params)
    } else {
        Seq::<Step>::empty()
    }) + seq![Step::SetHigh(Line::ChipSelect)]
}

/// A 16-bit word sent as a data transfer of two bytes, big-endian.
pub open spec fn word_steps(value: u16) -> Seq<Step> {
    data_steps(be_bytes(value))
}

/// The payloads of the bus writes among `steps`, in order.
pub open spec fn writes(steps: Seq<Step>) -> Seq<Seq<u8>>
    decreases steps.len(),
{
    if steps.len() == 0 {
        Seq::<Seq<u8>>::empty()
    } else {
        let rest = writes(steps.drop_last());
        match steps.last() {
            Step::Write(bytes) => rest.push(bytes),
            _ => rest,
        }
    }
}

/// `writes` of a concatenation is the concatenation of the `writes`.
pub proof fn lemma_writes_concat(a: Seq<Step>, b: Seq<Step>)
    ensures
        writes(a + b) == writes(a) + writes(b),
    decreases b.len(),
{
    if b.len() == 0 {
        assert(a + b =~= a);
        assert(writes(a) + writes(b) =~= writes(a));
    } else {
        assert((a + b).drop_last() =~= a + b.drop_last());
        assert((a + b).last() == b.last());
        lemma_writes_concat(a, b.drop_last());
        match b.last() {
            Step::Write(bytes) => {
                assert(writes(a) + writes(b.drop_last()).push(bytes) =~= (writes(a) + writes(
                    b.drop_last(),
                )).push(bytes));
            },
            _ => {},
        }
    }
}

/// A data transfer performs exactly one bus write, of `data`.
pub proof fn lemma_writes_data(data: Seq<u8>)
    ensures
        writes(data_steps(data)) == seq![data],
{
    reveal_with_fuel(writes, 6);
    assert(writes(data_steps(data)) =~= seq![data]);
}

/// A command performs one bus write for the opcode and, where there are
/// parameters, one more for all of them.
pub proof fn lemma_writes_command(code: u8, params: Seq<u8>)
    ensures
        writes(command_steps(code, params)) == if params.len() > 0 {
            seq![seq![code], params]
        } else {
            seq![seq![code]]
        },
{
    let head = seq![
        Step::SetHigh(Line::ChipSelect),
        Step::SetLow(Line::DataCommand),
        Step::SetLow(Line::ChipSelect),
        Step::Write(seq![code]),
    ];
    let tail = seq![Step::SetHigh(Line::ChipSelect)];
    let dc = seq![Step::SetHigh(Line::DataCommand)];
    assert(writes(head) =~= seq![seq![code]]) by {
        reveal_with_fuel(writes, 5);
    }
    assert(writes(tail) =~= Seq::<Seq<u8>>::empty()) by {
        reveal_with_fuel(writes, 2);
    }
    assert(writes(dc) =~= Seq::<Seq<u8>>::empty()) by {
        reveal_with_fuel(writes, 2);
    }
    if params.len() > 0 {
        let middle = dc + data_steps(params);
        lemma_writes_data(params);
        lemma_writes_concat(dc, data_steps(params));
        lemma_writes_concat(head, middle);
        lemma_writes_concat(head + middle, tail);
        assert(writes(command_steps(code, params)) =~= seq![seq![code], params]);
    } else {
        let middle = Seq::<Step>::empty();
        assert(head + middle =~= head);
        lemma_writes_concat(head + middle, tail);
        assert(writes(command_steps(code, params)) =~= seq![seq![code]]);
    }
}

/// Decides how a script of `len` actions goes on, given how many of them
/// were performed and the outcome of the last one (`Ok` before the first).
/// A failure ends the run at once and is handed on; nothing is tried again.
/// Otherwise the actions are performed in order, each once, and the run ends
/// well after the last.
pub fn advance(len: usize, performed: usize, outcome: Result<(), ProtocolError>) -> (next: Progress)
    ensures
        next == match outcome {
            Err(error) => Progress::Failed(error),
            Ok(()) => if performed < len {
                Progress::Perform(performed)
            } else {
                Progress::Finished
            },
        },
{
    match outcome {
        Err(error) => Progress::Failed(error),
        Ok(()) => if performed < len {
            Progress::Perform(performed)
        } else {
            Progress::Finished
        },
    }
}

/// Appends to `script` the switch to data mode: the command/data line goes
/// high.
pub fn start_data(script: &mut Vec<Action>)
    ensures
        final(script).deep_view() == old(script).deep_view().push(
            Step::SetHigh(Line::DataCommand),
        ),
{
    script.push(Action::SetHigh(Line::DataCommand));
    assert(script.deep_view() =~= old(script).deep_view().push(Step::SetHigh(Line::DataCommand)));
}

/// Appends to `script` one data transfer carrying `data`: exactly one bus
/// write, framed by the chip-select and command/data lines.
pub fn write_data(script: &mut Vec<Action>, data: &[u8])
    ensures
        final(script).deep_view() == old(script).deep_view() + data_steps(data@),
{
    script.push(Action::SetHigh(Line::ChipSelect));
    script.push(Action::SetHigh(Line::DataCommand));
    script.push(Action::SetLow(Line::ChipSelect));
    script.push(Action::Write(slice_to_vec(data)));
    script.push(Action::SetHigh(Line::ChipSelect));
    assert(script.deep_view() =~= old(script).deep_view() + data_steps(data@));
}

/// Appends to `script` one command: the opcode as a bus write of one byte in
/// command mode and, if `params` is not empty, the parameters as one data
/// transfer.
pub fn write_command(script: &mut Vec<Action>, command: u8, params: &[u8])
    ensures
        final(script).deep_view() == old(script).deep_view() + command_steps(command, params@),
{
    script.push(Action::SetHigh(Line::ChipSelect));
    script.push(Action::SetLow(Line::DataCommand));
    script.push(Action::SetLow(Line::ChipSelect));
    let mut opcode: Vec<u8> = Vec::new();
    opcode.push(command);
    assert(opcode@ =~= seq![command]);
    script.push(Action::Write(opcode));
    let ghost head = script.deep_view();
    assert(head =~= old(script).deep_view() + seq![
        Step::SetHigh(Line::ChipSelect),
        Step::SetLow(Line::DataCommand),
        Step::SetLow(Line::ChipSelect),
        Step::Write(seq![command]),
    ]);
    let ghost middle = if params@.len() > 0 {
        seq![Step::SetHigh(Line::DataCommand)] + data_steps(params@)
    } else {
        Seq::<Step>::empty()
    };
    if params.len() > 0 {
        start_data(script);
        write_data(script, params);
    }
    assert(script.deep_view() =~= head + middle);
    let ghost body = script.deep_view();
    script.push(Action::SetHigh(Line::ChipSelect));
    assert(script.deep_view() =~= body.push(Step::SetHigh(Line::ChipSelect)));
    assert(script.deep_view() =~= old(script).deep_view() + command_steps(command, params@));
}

/// Appends to `script` one data transfer carrying the two bytes of `value`,
/// most significant first.
pub fn write_word(script: &mut Vec<Action>, value: u16)
    ensures
        final(script).deep_view() == old(script).deep_view() + word_steps(value),
{
    let bytes = word_bytes(value);
    write_data(script, bytes.as_slice());
}

} // verus!
