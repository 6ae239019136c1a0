//! What the context does about MIDI signals: when buffered input is handed
//! out, and when the list of inputs has to be read again.

use crate::platform::Signal;
use vstd::prelude::*;

verus! {

#[derive(Clone, Copy, Debug, PartialEq, Eq, Structural)]
pub struct Midi1Data {
    pub data0: u8,
    pub data1: u8,
    pub data2: u8,
}

/// One MIDI message and the input it came from.
#[derive(Clone, Copy, Debug, PartialEq, Eq, Structural)]
pub struct Midi1InputData {
    pub input: usize,
    pub data: Midi1Data,
}

/// Whether `signal` is among `signals`.
pub fn has_signal(signals: &Vec<Signal>, signal: Signal) -> (r: bool)
    ensures
        r == signals@.contains(signal),
{
    let mut i: usize = 0;
    while i < signals.len()
        invariant
            i <= signals@.len(),
            forall|k: int| 0 <= k < i ==> signals@[k] != signal,
        decreases signals@.len() - i,
    {
        if signals[i] == signal {
            assert(signals@.contains(signal));
            return true;
        }
        i = i + 1;
    }
    false
}

/// The MIDI input to hand out for an event that carries `signals`: everything in `buffer`,
/// which is left empty, if the signal `input_data` is among them, and nothing otherwise.
pub fn on_midi_1_input_data(
    signals: &Vec<Signal>,
    input_data: Signal,
    buffer: &mut Vec<Midi1InputData>,
) -> (out: Vec<Midi1InputData>)
    ensures
        signals@.contains(input_data) ==> out@ == old(buffer)@ && final(buffer)@.len() == 0,
        !signals@.contains(input_data) ==> out@.len() == 0 && final(buffer)@ == old(buffer)@,
{
    let mut out: Vec<Midi1InputData> = Vec::new();
    if has_signal(signals, input_data) {
        let mut i: usize = 0;
        while i < buffer.len()
            invariant
                i <= buffer@.len(),
                buffer@ == old(buffer)@,
                out@ == buffer@.subrange(0, i as int),
            decreases buffer@.len() - i,
        {
            out.push(buffer[i]);
            i = i + 1;
            assert(out@ =~= buffer@.subrange(0, i as int));
        }
        assert(out@ =~= old(buffer)@);
        buffer.clear();
    }
    out
}

/// Whether the list of MIDI inputs has to be read again for an event that carries `signals`:
/// it has if the signal `inputs_changed` is among them.
pub fn on_midi_input_list(signals: &Vec<Signal>, inputs_changed: Signal) -> (reconnect: bool)
    ensures
        reconnect == signals@.contains(inputs_changed),
{
    has_signal(signals, inputs_changed)
}

} // verus!
