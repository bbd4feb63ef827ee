//! The logical output record that stands for a display towards the rest of
//! the compositor: its name, its physical properties and its mode.

use drm::control::connector::Interface;
use vstd::prelude::*;
use vstd::string::StringExecFns;

use crate::backend::connector::{ConnectorInfo, ModeInfo};

verus! {

/// The mode of an output as advertised to clients.
#[derive(Clone, Copy, Debug, PartialEq, Eq, Hash, Structural)]
pub struct OutputMode {
    /// Width in pixels.
    pub width: i32,
    /// Height in pixels.
    pub height: i32,
    /// Refresh rate in millihertz.
    pub refresh: i64,
}

/// A rectangle in output pixels.
#[derive(Clone, Copy, Debug, PartialEq, Eq, Hash, Structural)]
pub struct Rectangle {
    pub x: i32,
    pub y: i32,
    pub width: i32,
    pub height: i32,
}

/// One logical output.
#[derive(Clone, Copy, Debug, PartialEq, Eq, Hash)]
pub struct OutputRecord {
    /// The kind of physical interface, as the kernel numbers it.
    pub interface: u32,
    /// Tells outputs of one interface kind apart.
    pub interface_id: u32,
    /// Physical size in millimetres; `(0, 0)` where the display reports none.
    pub physical_size: (u32, u32),
    /// The mode the output is driven with.
    pub mode: OutputMode,
}

/// The short name of an interface kind, as `Interface::as_str` of the `drm`
/// crate gives it for the kind that `Interface::from` maps the number to.
pub uninterp spec fn interface_name(kind: u32) -> Seq<char>;

/// The variant name of an interface kind, as the `Debug` form of the `drm`
/// crate's `Interface` gives it for the kind that `Interface::from` maps the
/// number to.
pub uninterp spec fn interface_variant(kind: u32) -> Seq<char>;

/// The character of a decimal digit.
pub open spec fn digit_char(d: nat) -> char {
    if d == 0 {
        '0'
    } else if d == 1 {
        '1'
    } else if d == 2 {
        '2'
    } else if d == 3 {
        '3'
    } else if d == 4 {
        '4'
    } else if d == 5 {
        '5'
    } else if d == 6 {
        '6'
    } else if d == 7 {
        '7'
    } else if d == 8 {
        '8'
    } else {
        '9'
    }
}

/// A number written in decimal, without leading zeros.
pub open spec fn decimal_digits(n: nat) -> Seq<char>
    decreases n,
{
    if n < 10 {
        seq![digit_char(n)]
    } else {
        decimal_digits(n / 10).push(digit_char(n % 10))
    }
}

/// The name of the output on connector `interface_id` of kind `kind`, given
/// the short name `label` of that kind: label, a hyphen, the number.
pub open spec fn joined_name(label: Seq<char>, interface_id: u32) -> Seq<char> {
    label + seq!['-'] + decimal_digits(interface_id as nat)
}

/// The mode advertised for a hardware mode: the same size, and the refresh
/// rate in millihertz.
pub open spec fn output_mode_of(mode: ModeInfo) -> OutputMode {
    OutputMode {
        width: mode.width as i32,
        height: mode.height as i32,
        refresh: (mode.vrefresh * 1000) as i64,
    }
}

/// The record of the output on `connector` driven with `mode`.
pub open spec fn output_record_of(connector: &ConnectorInfo, mode: ModeInfo) -> OutputRecord {
    OutputRecord {
        interface: connector.interface,
        interface_id: connector.interface_id,
        physical_size: match connector.size {
            Some(size) => size,
            None => (0u32, 0u32),
        },
        mode: output_mode_of(mode),
    }
}

/// Calls `Interface::from` and `Interface::as_str` of the `drm` crate. The
/// contract claims only that the text depends on the number alone.
#[verifier::external_body]
fn interface_label(kind: u32) -> (label: String)
    ensures
        label@ == interface_name(kind),
{
    Interface::from(kind).as_str().to_owned()
}

/// Formats the `drm` crate's `Interface::from(kind)` with its `Debug` impl.
/// The contract claims only that the text depends on the number alone.
#[verifier::external_body]
fn interface_variant_name(kind: u32) -> (name: String)
    ensures
        name@ == interface_variant(kind),
{
    format!("{:?}", Interface::from(kind))
}

/// The text of one decimal digit.
fn digit_str(d: u32) -> (s: &'static str)
    requires
        d < 10,
    ensures
        s@ == seq![digit_char(d as nat)],
{
    proof {
        reveal_strlit("0");
        reveal_strlit("1");
        reveal_strlit("2");
        reveal_strlit("3");
        reveal_strlit("4");
        reveal_strlit("5");
        reveal_strlit("6");
        reveal_strlit("7");
        reveal_strlit("8");
        reveal_strlit("9");
    }
    let s: &'static str = if d == 0 {
        "0"
    } else if d == 1 {
        "1"
    } else if d == 2 {
        "2"
    } else if d == 3 {
        "3"
    } else if d == 4 {
        "4"
    } else if d == 5 {
        "5"
    } else if d == 6 {
        "6"
    } else if d == 7 {
        "7"
    } else if d == 8 {
        "8"
    } else {
        "9"
    };
    s
}

/// Appends `n` in decimal to `text`.
fn append_decimal(text: &mut String, n: u32)
    ensures
        final(text)@ == old(text)@ + decimal_digits(n as nat),
    decreases n,
{
    if n >= 10 {
        append_decimal(text, n / 10);
    }
    text.append(digit_str(n % 10));
    proof {
        if n >= 10 {
            assert(old(text)@ + decimal_digits((n / 10) as nat) + seq![digit_char((n % 10) as nat)]
                =~= old(text)@ + decimal_digits(n as nat));
        }
    }
}

/// Joins the short name of an interface kind and a connector number into an
/// output name such as `HDMI-A-1`.
pub fn join_name(label: &str, interface_id: u32) -> (name: String)
    ensures
        name@ == joined_name(label@, interface_id),
{
    proof {
        reveal_strlit("-");
    }
    let mut name: String = label.to_owned();
    name.append("-");
    append_decimal(&mut name, interface_id);
    name
}

impl OutputMode {
    /// The mode advertised for a hardware mode.
    pub fn from_mode(mode: ModeInfo) -> (m: OutputMode)
        ensures
            m == output_mode_of(mode),
    {
        OutputMode {
            width: mode.width as i32,
            height: mode.height as i32,
            refresh: (mode.vrefresh as i64) * 1000,
        }
    }

    /// The mode of an output that is a window of another display server:
    /// the size of the window, at 60 Hz.
    pub fn nested(width: i32, height: i32) -> (m: OutputMode)
        ensures
            m == (OutputMode { width, height, refresh: 60_000 }),
    {
        OutputMode { width, height, refresh: 60_000 }
    }

    /// The rectangle that covers the whole output.
    pub open spec fn full_rectangle(&self) -> Rectangle {
        Rectangle { x: 0, y: 0, width: self.width, height: self.height }
    }

    /// The rectangle that covers the whole output.
    pub fn bounds(&self) -> (r: Rectangle)
        ensures
            r == self.full_rectangle(),
    {
        Rectangle { x: 0, y: 0, width: self.width, height: self.height }
    }
}

impl OutputRecord {
    /// The record of the output on `connector` driven with `mode`.
    pub fn for_connector(connector: &ConnectorInfo, mode: ModeInfo) -> (o: OutputRecord)
        ensures
            o == output_record_of(connector, mode),
    {
        let physical_size: (u32, u32) = match connector.size {
            Some(size) => size,
            None => (0, 0),
        };
        OutputRecord {
            interface: connector.interface,
            interface_id: connector.interface_id,
            physical_size,
            mode: OutputMode::from_mode(mode),
        }
    }

    /// The output's name: the short name of its interface kind, a hyphen and
    /// its connector number.
    pub fn name(&self) -> (name: String)
        ensures
            name@ == joined_name(interface_name(self.interface), self.interface_id),
    {
        let label: String = interface_label(self.interface);
        join_name(label.as_str(), self.interface_id)
    }

    /// The manufacturer reported for every output.
    pub fn make(&self) -> (make: String)
        ensures
            make@ == "projectwc"@,
    {
        "projectwc".to_owned()
    }

    /// The model reported for the output: the variant name of its interface
    /// kind.
    pub fn model(&self) -> (model: String)
        ensures
            model@ == interface_variant(self.interface),
    {
        interface_variant_name(self.interface)
    }

    /// The serial number reported for every output.
    pub fn serial_number(&self) -> (serial: String)
        ensures
            serial@ == "Unknown"@,
    {
        "Unknown".to_owned()
    }
}

} // verus!
