//! The tag of a neuron and the tables that depend on it alone.

use vstd::prelude::*;

verus! {

/// The role a neuron plays in the network.
#[derive(Clone, Copy, Debug, PartialEq, Eq, Structural)]
pub enum NeuronKind {
    Input,
    Hidden,
    Output,
    Unknown,
}

/// The kind that a type tag names: `"input"`, `"hidden"` and `"output"` name
/// the three layers, every other text is `Unknown`.
pub open spec fn kind_of(tag: Seq<char>) -> NeuronKind {
    if tag == "input"@ {
        NeuronKind::Input
    } else if tag == "hidden"@ {
        NeuronKind::Hidden
    } else if tag == "output"@ {
        NeuronKind::Output
    } else {
        NeuronKind::Unknown
    }
}

/// The display colour of a kind.
pub open spec fn color_of(kind: NeuronKind) -> Seq<char> {
    match kind {
        NeuronKind::Input => "#4CAF50"@,
        NeuronKind::Hidden => "#2196F3"@,
        NeuronKind::Output => "#FF9800"@,
        NeuronKind::Unknown => "#9E9E9E"@,
    }
}

/// The one-letter display symbol of a kind.
pub open spec fn symbol_of(kind: NeuronKind) -> Seq<char> {
    match kind {
        NeuronKind::Input => "I"@,
        NeuronKind::Hidden => "H"@,
        NeuronKind::Output => "O"@,
        NeuronKind::Unknown => "?"@,
    }
}

/// The angular frequency of a kind's oscillator, counted in halves: 2 stands
/// for a frequency of one, 1 for a frequency of one half.
pub open spec fn frequency_halves_of(kind: NeuronKind) -> u8 {
    match kind {
        NeuronKind::Input => 2,
        NeuronKind::Hidden => 4,
        NeuronKind::Output => 1,
        NeuronKind::Unknown => 2,
    }
}

/// Reads the kind off a type tag.
pub fn classify(tag: &str) -> (kind: NeuronKind)
    ensures
        kind == kind_of(tag@),
{
    let owned = tag.to_owned();
    if owned == "input".to_owned() {
        NeuronKind::Input
    } else if owned == "hidden".to_owned() {
        NeuronKind::Hidden
    } else if owned == "output".to_owned() {
        NeuronKind::Output
    } else {
        NeuronKind::Unknown
    }
}

/// The display colour of a kind, as text.
pub fn color_for(kind: NeuronKind) -> (color: String)
    ensures
        color@ == color_of(kind),
{
    match kind {
        NeuronKind::Input => "#4CAF50".to_owned(),
        NeuronKind::Hidden => "#2196F3".to_owned(),
        NeuronKind::Output => "#FF9800".to_owned(),
        NeuronKind::Unknown => "#9E9E9E".to_owned(),
    }
}

/// The display symbol of a kind, as text.
pub fn symbol_for(kind: NeuronKind) -> (symbol: String)
    ensures
        symbol@ == symbol_of(kind),
{
    match kind {
        NeuronKind::Input => "I".to_owned(),
        NeuronKind::Hidden => "H".to_owned(),
        NeuronKind::Output => "O".to_owned(),
        NeuronKind::Unknown => "?".to_owned(),
    }
}

/// The oscillator frequency of a kind, in halves.
pub fn frequency_halves(kind: NeuronKind) -> (halves: u8)
    ensures
        halves == frequency_halves_of(kind),
{
    match kind {
        NeuronKind::Input => 2,
        NeuronKind::Hidden => 4,
        NeuronKind::Output => 1,
        NeuronKind::Unknown => 2,
    }
}

} // verus!
