use vstd::prelude::*;

verus! {

#[verifier::external_type_specification]
#[verifier::external_body]
pub struct ExOscPacket(rosc::OscPacket);

/// An OSC argument as the VMC protocol reads it: a string, a 32-bit float
/// (kept as its IEEE-754 bit pattern), or anything else.
#[derive(Debug, Clone, PartialEq)]
pub enum OscArg {
    Str(String),
    Float(u32),
    Other,
}

/// An OSC message: its address pattern and arguments.
#[derive(Debug, Clone, PartialEq)]
pub struct OscMessageData {
    pub addr: String,
    pub args: Vec<OscArg>,
}

/// An element of an OSC bundle, as far as the receiver reads it: a message,
/// or a nested bundle, whose contents the receiver does not read.
#[derive(Debug, Clone, PartialEq)]
pub enum BundleItem {
    Message(OscMessageData),
    Bundle,
}

/// An OSC packet: a message or a bundle.
#[derive(Debug, Clone, PartialEq)]
pub enum OscPacketData {
    Message(OscMessageData),
    Bundle(Vec<BundleItem>),
}

/// A position and a rotation quaternion, as the bit patterns of the seven
/// single-precision values a VMC transform message carries, in wire order.
#[derive(Debug, Clone, Copy, PartialEq, Eq, Structural)]
pub struct TransformBits {
    pub px: u32,
    pub py: u32,
    pub pz: u32,
    pub rx: u32,
    pub ry: u32,
    pub rz: u32,
    pub rw: u32,
}

/// What a VMC message asks the receiver to update.
#[derive(Debug, Clone, PartialEq)]
pub enum VmcCommand {
    /// `/VMC/Ext/Bone/Pos`: set the transform of the named bone.
    BonePos { name: String, transform: TransformBits },
    /// `/VMC/Ext/Blend/Val`: set the named blend shape to the value.
    BlendVal { name: String, value: u32 },
    /// `/VMC/Ext/Root/Pos`: set the root transform (the name is ignored).
    RootPos { transform: TransformBits },
    /// Any other address, or arguments of the wrong shape.
    Ignored,
}

pub open spec fn float_bits_of(a: OscArg) -> u32 {
    match a {
        OscArg::Float(bits) => bits,
        _ => 0,
    }
}

pub open spec fn string_of(a: OscArg) -> String {
    match a {
        OscArg::Str(s) => s,
        _ => arbitrary(),
    }
}

/// A string followed by exactly seven floats.
pub open spec fn is_transform_shape(args: Seq<OscArg>) -> bool {
    &&& args.len() == 8
    &&& args[0] is Str
    &&& forall|i: int| 1 <= i < 8 ==> #[trigger] args[i] is Float
}

/// A string followed by exactly one float.
pub open spec fn is_blend_shape(args: Seq<OscArg>) -> bool {
    &&& args.len() == 2
    &&& args[0] is Str
    &&& args[1] is Float
}

pub open spec fn transform_of(args: Seq<OscArg>) -> TransformBits {
    TransformBits {
        px: float_bits_of(args[1]),
        py: float_bits_of(args[2]),
        pz: float_bits_of(args[3]),
        rx: float_bits_of(args[4]),
        ry: float_bits_of(args[5]),
        rz: float_bits_of(args[6]),
        rw: float_bits_of(args[7]),
    }
}

/// The command of a VMC message with address `addr` and arguments `args`.
pub open spec fn vmc_command_of(addr: Seq<char>, args: Seq<OscArg>) -> VmcCommand {
    if addr == "/VMC/Ext/Bone/Pos"@ {
        if is_transform_shape(args) {
            VmcCommand::BonePos { name: string_of(args[0]), transform: transform_of(args) }
        } else {
            VmcCommand::Ignored
        }
    } else if addr == "/VMC/Ext/Blend/Val"@ {
        if is_blend_shape(args) {
            VmcCommand::BlendVal { name: string_of(args[0]), value: float_bits_of(args[1]) }
        } else {
            VmcCommand::Ignored
        }
    } else if addr == "/VMC/Ext/Root/Pos"@ {
        if is_transform_shape(args) {
            VmcCommand::RootPos { transform: transform_of(args) }
        } else {
            VmcCommand::Ignored
        }
    } else {
        VmcCommand::Ignored
    }
}

/// Law: a transform message with a name and seven floats sets, in wire order,
/// position x, y, z and rotation x, y, z, w: for the bone of that name on
/// `/VMC/Ext/Bone/Pos`, for the root on `/VMC/Ext/Root/Pos`; a blend message
/// with a name and one float sets that blend shape to it.
pub proof fn law_vmc_arguments_in_wire_order(
    name: String,
    px: u32,
    py: u32,
    pz: u32,
    rx: u32,
    ry: u32,
    rz: u32,
    rw: u32,
)
    ensures
        ({
            let args = seq![
                OscArg::Str(name),
                OscArg::Float(px),
                OscArg::Float(py),
                OscArg::Float(pz),
                OscArg::Float(rx),
                OscArg::Float(ry),
                OscArg::Float(rz),
                OscArg::Float(rw),
            ];
            let transform = TransformBits { px, py, pz, rx, ry, rz, rw };
            &&& vmc_command_of("/VMC/Ext/Bone/Pos"@, args) == (VmcCommand::BonePos { name, transform })
            &&& vmc_command_of("/VMC/Ext/Root/Pos"@, args) == (VmcCommand::RootPos { transform })
        }),
        vmc_command_of("/VMC/Ext/Blend/Val"@, seq![OscArg::Str(name), OscArg::Float(px)]) == (VmcCommand::BlendVal {
            name,
            value: px,
        }),
{
    let args = seq![
        OscArg::Str(name),
        OscArg::Float(px),
        OscArg::Float(py),
        OscArg::Float(pz),
        OscArg::Float(rx),
        OscArg::Float(ry),
        OscArg::Float(rz),
        OscArg::Float(rw),
    ];
    assert(is_transform_shape(args));
    reveal_strlit("/VMC/Ext/Bone/Pos");
    reveal_strlit("/VMC/Ext/Root/Pos");
    reveal_strlit("/VMC/Ext/Blend/Val");
    assert("/VMC/Ext/Root/Pos"@[9] != "/VMC/Ext/Bone/Pos"@[9]);
    assert("/VMC/Ext/Blend/Val"@[10] != "/VMC/Ext/Bone/Pos"@[10]);
    assert(string_of(args[0]) == name);
    assert(transform_of(args) == TransformBits { px, py, pz, rx, ry, rz, rw });
    assert(is_blend_shape(seq![OscArg::Str(name), OscArg::Float(px)]));
}

/// Law: a message whose address is none of the three VMC addresses is
/// ignored, whatever its arguments; so is a transform message that is not a
/// name followed by exactly seven floats.
pub proof fn law_vmc_ignores_the_rest(addr: Seq<char>, args: Seq<OscArg>)
    ensures
        addr != "/VMC/Ext/Bone/Pos"@ && addr != "/VMC/Ext/Blend/Val"@ && addr != "/VMC/Ext/Root/Pos"@
            ==> vmc_command_of(addr, args) == VmcCommand::Ignored,
        (addr == "/VMC/Ext/Bone/Pos"@ || addr == "/VMC/Ext/Root/Pos"@) && (args.len() != 8 || !(args[0] is Str))
            ==> vmc_command_of(addr, args) == VmcCommand::Ignored,
{
    reveal_strlit("/VMC/Ext/Bone/Pos");
    reveal_strlit("/VMC/Ext/Root/Pos");
    reveal_strlit("/VMC/Ext/Blend/Val");
    assert("/VMC/Ext/Root/Pos"@[9] != "/VMC/Ext/Bone/Pos"@[9]);
    assert("/VMC/Ext/Root/Pos"@[9] != "/VMC/Ext/Blend/Val"@[9]);
}

/// The commands of the messages directly inside a bundle, in order; nested
/// bundles are skipped.
pub open spec fn bundle_commands(items: Seq<BundleItem>) -> Seq<VmcCommand>
    decreases items.len(),
{
    if items.len() == 0 {
        Seq::empty()
    } else {
        let prev = bundle_commands(items.drop_last());
        match items.last() {
            BundleItem::Message(m) => prev.push(vmc_command_of(m.addr@, m.args@)),
            BundleItem::Bundle => prev,
        }
    }
}

/// The commands of a packet: one for a message, one per directly contained
/// message for a bundle.
pub open spec fn packet_commands_of(packet: OscPacketData) -> Seq<VmcCommand> {
    match packet {
        OscPacketData::Message(m) => seq![vmc_command_of(m.addr@, m.args@)],
        OscPacketData::Bundle(items) => bundle_commands(items@),
    }
}

/// What a `rosc::OscPacket` holds, as plain values: strings stay strings,
/// float arguments become their bit patterns, other argument types become
/// `Other`, and a bundle nested in a bundle is only marked as such.
pub uninterp spec fn osc_packet_value(packet: rosc::OscPacket) -> OscPacketData;

/// What `rosc::decoder::decode_udp` makes of the bytes of a datagram.
pub uninterp spec fn osc_udp_decoded(bytes: Seq<u8>) -> Option<OscPacketData>;

/// Calls `rosc::decoder::decode_udp` and keeps the packet, dropping the
/// unread remainder. Claims: the outcome is `osc_udp_decoded(bytes)`.
#[verifier::external_body]
fn decode_udp_packet(bytes: &[u8]) -> (r: Option<rosc::OscPacket>)
    ensures
        match r {
            Some(p) => osc_udp_decoded(bytes@) == Some(osc_packet_value(p)),
            None => osc_udp_decoded(bytes@) is None,
        },
{
    rosc::decoder::decode_udp(bytes).ok().map(|(_, packet)| packet)
}

/// Moves the contents of a `rosc::OscPacket` into plain values, one for one.
/// Claims: the result is `osc_packet_value(packet)`.
#[verifier::external_body]
fn packet_data(packet: rosc::OscPacket) -> (r: OscPacketData)
    ensures
        r == osc_packet_value(packet),
{
    let message = |m: rosc::OscMessage| OscMessageData {
        addr: m.addr,
        args: m.args.into_iter().map(|a| match a {
            rosc::OscType::String(s) => OscArg::Str(s),
            rosc::OscType::Float(f) => OscArg::Float(f.to_bits()),
            _ => OscArg::Other,
        }).collect(),
    };
    match packet {
        rosc::OscPacket::Message(m) => OscPacketData::Message(message(m)),
        rosc::OscPacket::Bundle(b) => OscPacketData::Bundle(b.content.into_iter().map(|p| match p {
            rosc::OscPacket::Message(m) => BundleItem::Message(message(m)),
            rosc::OscPacket::Bundle(_) => BundleItem::Bundle,
        }).collect()),
    }
}

fn arg_float(a: &OscArg) -> (r: Option<u32>)
    ensures
        match r {
            Some(bits) => *a is Float && bits == float_bits_of(*a),
            None => !(*a is Float),
        },
{
    match a {
        OscArg::Float(bits) => Some(*bits),
        _ => None,
    }
}

fn arg_string(a: &OscArg) -> (r: Option<String>)
    ensures
        match r {
            Some(s) => *a is Str && s == string_of(*a),
            None => !(*a is Str),
        },
{
    match a {
        OscArg::Str(s) => Some(s.clone()),
        _ => None,
    }
}

/// The name and transform of a string-then-seven-floats argument list.
fn transform_args(args: &Vec<OscArg>) -> (r: Option<(String, TransformBits)>)
    ensures
        match r {
            Some((name, t)) => is_transform_shape(args@) && name == string_of(args@[0]) && t == transform_of(args@),
            None => !is_transform_shape(args@),
        },
{
    if args.len() != 8 {
        return None;
    }
    let name = match arg_string(&args[0]) {
        Some(s) => s,
        None => return None,
    };
    let mut bits: Vec<u32> = Vec::new();
    let mut i: usize = 1;
    while i < 8
        invariant
            args.len() == 8,
            1 <= i <= 8,
            bits@.len() == i - 1,
            forall|j: int| 1 <= j < i ==> #[trigger] args@[j] is Float && bits@[j - 1] == float_bits_of(args@[j]),
        decreases 8 - i,
    {
        match arg_float(&args[i]) {
            Some(b) => bits.push(b),
            None => return None,
        }
        i += 1;
    }
    let t = TransformBits { px: bits[0], py: bits[1], pz: bits[2], rx: bits[3], ry: bits[4], rz: bits[5], rw: bits[6] };
    Some((name, t))
}

/// Reads one VMC message: a bone transform, a blend shape value or the root
/// transform, when the address is one of the three and the arguments have the
/// expected shape (a name and seven floats, or a name and one float);
/// anything else is `Ignored`.
pub fn parse_message(msg: &OscMessageData) -> (c: VmcCommand)
    ensures
        c == vmc_command_of(msg.addr@, msg.args@),
{
    if msg.addr == "/VMC/Ext/Bone/Pos".to_owned() {
        match transform_args(&msg.args) {
            Some((name, transform)) => VmcCommand::BonePos { name, transform },
            None => VmcCommand::Ignored,
        }
    } else if msg.addr == "/VMC/Ext/Blend/Val".to_owned() {
        if msg.args.len() != 2 {
            return VmcCommand::Ignored;
        }
        match (arg_string(&msg.args[0]), arg_float(&msg.args[1])) {
            (Some(name), Some(value)) => VmcCommand::BlendVal { name, value },
            _ => VmcCommand::Ignored,
        }
    } else if msg.addr == "/VMC/Ext/Root/Pos".to_owned() {
        match transform_args(&msg.args) {
            Some((_, transform)) => VmcCommand::RootPos { transform },
            None => VmcCommand::Ignored,
        }
    } else {
        VmcCommand::Ignored
    }
}

/// The commands a packet carries: a message gives its own command; a bundle
/// gives those of the messages directly inside it, in order, and skips
/// nested bundles.
pub fn packet_commands(packet: &OscPacketData) -> (r: Vec<VmcCommand>)
    ensures
        r@ == packet_commands_of(*packet),
{
    let mut out: Vec<VmcCommand> = Vec::new();
    match packet {
        OscPacketData::Message(m) => {
            out.push(parse_message(m));
        },
        OscPacketData::Bundle(items) => {
            let n = items.len();
            let mut i: usize = 0;
            while i < n
                invariant
                    n == items.len(),
                    i <= n,
                    out@ == bundle_commands(items@.take(i as int)),
                decreases n - i,
            {
                assert(items@.take(i as int + 1).drop_last() =~= items@.take(i as int));
                match &items[i] {
                    BundleItem::Message(m) => {
                        out.push(parse_message(m));
                    },
                    BundleItem::Bundle => {},
                }
                i += 1;
            }
            assert(items@.take(n as int) =~= items@);
        },
    }
    out
}

/// Decodes one UDP datagram into an OSC packet, if it holds one.
pub fn decode_packet(bytes: &[u8]) -> (r: Option<OscPacketData>)
    ensures
        r == osc_udp_decoded(bytes@),
{
    match decode_udp_packet(bytes) {
        Some(p) => Some(packet_data(p)),
        None => None,
    }
}

/// The commands carried by one UDP datagram: none when it does not decode.
pub fn receive_commands(bytes: &[u8]) -> (r: Vec<VmcCommand>)
    ensures
        r@ == (match osc_udp_decoded(bytes@) {
            Some(p) => packet_commands_of(p),
            None => Seq::empty(),
        }),
{
    match decode_packet(bytes) {
        Some(p) => packet_commands(&p),
        None => Vec::new(),
    }
}

} // verus!
