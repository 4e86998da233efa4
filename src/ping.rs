use vstd::prelude::*;
use crate::curseforge::{lower, to_ascii_lower};
use crate::text::str_eq;

verus! {

broadcast use vstd::std_specs::vec::axiom_vec_index_decreases, vstd::std_specs::vec::axiom_vec_decreases_to_view, vstd::seq::axiom_seq_index_decreases, vstd::seq::axiom_seq_subrange_decreases;

/// What a server answered to a status request.
#[derive(Clone, Debug)]
pub struct PingResponse {
    pub latency_ms: u64,
    pub version_name: String,
    pub protocol_version: i32,
    pub max_players: i32,
    pub online_players: i32,
    pub motd: String,
    pub motd_html: Option<String>,
    pub favicon: Option<String>,
}

/// The default server port.
pub const DEFAULT_PORT: u16 = 25565;

/// The protocol version sent in the handshake.
pub const HANDSHAKE_PROTOCOL: u32 = 47;

/// The VarInt encoding of `n`: seven bits per byte, least significant first,
/// the high bit set on every byte but the last.
pub open spec fn varint(n: nat) -> Seq<u8>
    decreases n,
{
    if n < 128 {
        seq![n as u8]
    } else {
        seq![((n % 128) + 128) as u8] + varint(n / 128)
    }
}

/// Appends the VarInt encoding of `val` to `buf`.
pub fn write_varint(buf: &mut Vec<u8>, val: u32)
    ensures
        final(buf)@ == old(buf)@ + varint(val as nat),
    decreases val,
{
    if val < 128 {
        buf.push(val as u8);
        assert(final(buf)@ =~= old(buf)@ + varint(val as nat));
    } else {
        buf.push(((val % 128) + 128) as u8);
        write_varint(buf, val / 128);
        assert(final(buf)@ =~= old(buf)@ + varint(val as nat));
    }
}

/// `128^k`.
pub open spec fn pow128(k: nat) -> nat
    decreases k,
{
    if k == 0 { 1 } else { 128 * pow128((k - 1) as nat) }
}

/// Reads a VarInt at `i`, from its `k`-th byte on: the value of the bytes
/// from the `k`-th on and how many bytes the VarInt takes in all; `None` when
/// the bytes end first or a fifth byte still asks for more.
pub open spec fn varint_at(s: Seq<u8>, i: int, k: nat) -> Option<(nat, nat)>
    decreases 5 - k,
{
    if k >= 5 || i + k >= s.len() {
        None
    } else {
        let b = s[i + k];
        let low = (b % 128) as nat * pow128(k);
        if b < 128 {
            Some((low, k + 1))
        } else if k + 1 >= 5 {
            None
        } else {
            match varint_at(s, i, k + 1) {
                Some((v, n)) => Some((low + v, n)),
                None => None,
            }
        }
    }
}

/// A partial VarInt reading with `acc` added to its value.
pub open spec fn shifted(r: Option<(nat, nat)>, acc: nat) -> Option<(nat, nat)> {
    match r {
        Some((v, n)) => Some(((acc + v) as nat, n)),
        None => None,
    }
}

/// A decoded VarInt as the 32-bit signed value it stands for.
pub open spec fn as_i32(v: nat) -> i32 {
    (v % 0x1_0000_0000) as u32 as i32
}

proof fn lemma_pow128_bound(k: nat)
    requires
        k <= 5,
    ensures
        pow128(k) <= 0x8_0000_0000,
    decreases k,
{
    if k > 0 {
        lemma_pow128_bound((k - 1) as nat);
    }
    reveal_with_fuel(pow128, 6);
}

proof fn lemma_varint_len(n: nat, k: nat)
    requires
        k >= 1,
        n < pow128(k),
    ensures
        varint(n).len() <= k,
    decreases n,
{
    if n >= 128 {
        assert(pow128(k) == 128 * pow128((k - 1) as nat));
        assert(n / 128 < pow128((k - 1) as nat)) by (nonlinear_arith)
            requires n < 128 * pow128((k - 1) as nat);
        if k == 1 {
            assert(pow128(0) == 1);
        } else {
            lemma_varint_len(n / 128, (k - 1) as nat);
        }
    }
}

proof fn lemma_pow_mono(a: nat, b: nat)
    requires
        a <= b,
    ensures
        pow128(a) <= pow128(b),
    decreases b - a,
{
    if a < b {
        lemma_pow_mono(a, (b - 1) as nat);
        assert(pow128(b) == 128 * pow128((b - 1) as nat));
    }
}

/// Reads the VarInt that starts at `pos`: its value and the position after
/// it.
pub fn read_varint(bytes: &[u8], pos: usize) -> (r: Option<(i32, usize)>)
    ensures
        match r {
            Some((v, next)) => varint_at(bytes@, pos as int, 0) matches Some((val, n)) && v == as_i32(val) && next == pos + n,
            None => varint_at(bytes@, pos as int, 0) is None,
        },
{
    let mut acc: u64 = 0;
    let mut mult: u64 = 1;
    let mut k: usize = 0;
    while k < 5
        invariant
            k <= 5,
            mult == pow128(k as nat),
            acc < mult,
            varint_at(bytes@, pos as int, 0) == shifted(varint_at(bytes@, pos as int, k as nat), acc as nat),
        decreases 5 - k,
    {
        proof {
            lemma_pow128_bound(k as nat);
        }
        if pos >= bytes.len() || k >= bytes.len() - pos {
            return None;
        }
        let b = bytes[pos + k];
        let d = (b % 128) as u64;
        assert(d * mult <= 127 * mult) by (nonlinear_arith)
            requires d <= 127;
        let low = d * mult;
        if b < 128 {
            let v = acc + low;
            proof {
                assert(varint_at(bytes@, pos as int, k as nat) == Some((low as nat, (k + 1) as nat)));
            }
            return Some((((v % 0x1_0000_0000) as u32) as i32, pos + k + 1));
        }
        if k + 1 >= 5 {
            return None;
        }
        proof {
            assert(shifted(varint_at(bytes@, pos as int, k as nat), acc as nat) == shifted(varint_at(bytes@, pos as int, (k + 1) as nat), (acc + low) as nat));
        }
        acc = acc + low;
        mult = mult * 128;
        k = k + 1;
    }
    None
}

/// A string as the protocol sends it: its UTF-8 length as a VarInt, then its
/// bytes.
pub open spec fn string_field(s: Seq<u8>) -> Seq<u8> {
    varint(s.len()) + s
}

/// A packet: its length as a VarInt, then its body.
pub open spec fn framed(body: Seq<u8>) -> Seq<u8> {
    varint(body.len()) + body
}

/// The handshake that opens a status exchange: packet id 0, protocol 47, the
/// host as a string, the port in two bytes, most significant first, and the
/// next state 1.
pub open spec fn handshake(host: Seq<u8>, port: u16) -> Seq<u8> {
    framed(varint(0) + varint(HANDSHAKE_PROTOCOL as nat) + string_field(host) + seq![(port / 256) as u8, (port % 256) as u8] + varint(1))
}

/// Builds the handshake packet for a status exchange with `host:port`, the
/// host given as its UTF-8 bytes.
pub fn handshake_packet(bytes: &[u8], port: u16) -> (r: Vec<u8>)
    requires
        bytes@.len() < 0x1000_0000,
    ensures
        r@ == handshake(bytes@, port),
{
    let mut body: Vec<u8> = Vec::new();
    write_varint(&mut body, 0);
    write_varint(&mut body, HANDSHAKE_PROTOCOL);
    write_varint(&mut body, bytes.len() as u32);
    let mut i: usize = 0;
    let ghost head = body@;
    while i < bytes.len()
        invariant
            i <= bytes@.len(),
            body@ == head + bytes@.subrange(0, i as int),
        decreases bytes.len() - i,
    {
        body.push(bytes[i]);
        i = i + 1;
        assert(body@ =~= head + bytes@.subrange(0, i as int));
    }
    body.push((port / 256) as u8);
    body.push((port % 256) as u8);
    write_varint(&mut body, 1);
    assert(bytes@.subrange(0, bytes@.len() as int) =~= bytes@);
    proof {
        reveal_with_fuel(pow128, 5);
        lemma_varint_len(bytes@.len() as nat, 4);
    }
    assert(body@.len() < 0x2000_0000);
    let mut packet: Vec<u8> = Vec::new();
    write_varint(&mut packet, body.len() as u32);
    let ghost lead = packet@;
    let mut j: usize = 0;
    while j < body.len()
        invariant
            j <= body@.len(),
            packet@ == lead + body@.subrange(0, j as int),
        decreases body.len() - j,
    {
        packet.push(body[j]);
        j = j + 1;
        assert(packet@ =~= lead + body@.subrange(0, j as int));
    }
    assert(body@.subrange(0, body@.len() as int) =~= body@);
    assert(packet@ =~= handshake(bytes@, port));
    packet
}

/// The status request packet: length 1, packet id 0.
pub fn status_request_packet() -> (r: Vec<u8>)
    ensures
        r@ == framed(varint(0)),
{
    let mut body: Vec<u8> = Vec::new();
    write_varint(&mut body, 0);
    let mut packet: Vec<u8> = Vec::new();
    write_varint(&mut packet, 1);
    packet.push(body[0]);
    assert(packet@ =~= framed(varint(0)));
    packet
}

/// Why a status answer could not be read.
#[derive(Clone, Copy, Debug, PartialEq, Eq, Structural)]
pub enum PingError {
    /// The answer ends early or holds a malformed VarInt.
    Truncated,
    /// The answer is another packet than the status response.
    UnexpectedPacket(i32),
}

/// Where the JSON text of a status answer lies: after the packet length, the
/// packet id (which must be 0) and the text length.
pub open spec fn status_json_range(s: Seq<u8>) -> Result<(int, int), PingError> {
    match varint_at(s, 0, 0) {
        None => Err(PingError::Truncated),
        Some((_, n1)) => match varint_at(s, n1 as int, 0) {
            None => Err(PingError::Truncated),
            Some((id, n2)) => if as_i32(id) != 0 {
                Err(PingError::UnexpectedPacket(as_i32(id)))
            } else {
                match varint_at(s, (n1 + n2) as int, 0) {
                    None => Err(PingError::Truncated),
                    Some((len, n3)) => {
                        let start = (n1 + n2 + n3) as int;
                        let l = as_i32(len);
                        if l < 0 || start + l > s.len() {
                            Err(PingError::Truncated)
                        } else {
                            Ok((start, start + l))
                        }
                    },
                }
            },
        },
    }
}

/// Finds the JSON text of a status answer.
pub fn status_json(bytes: &[u8]) -> (r: Result<(usize, usize), PingError>)
    ensures
        match r {
            Ok((a, b)) => status_json_range(bytes@) == Ok::<(int, int), PingError>((a as int, b as int)),
            Err(e) => status_json_range(bytes@) == Err::<(int, int), PingError>(e),
        },
{
    let (_, p1) = match read_varint(bytes, 0) {
        Some(x) => x,
        None => return Err(PingError::Truncated),
    };
    let (id, p2) = match read_varint(bytes, p1) {
        Some(x) => x,
        None => return Err(PingError::Truncated),
    };
    if id != 0 {
        return Err(PingError::UnexpectedPacket(id));
    }
    let (len, p3) = match read_varint(bytes, p2) {
        Some(x) => x,
        None => return Err(PingError::Truncated),
    };
    if len < 0 || p3 > bytes.len() || (len as usize) > bytes.len() - p3 {
        return Err(PingError::Truncated);
    }
    Ok((p3, p3 + len as usize))
}

/// The formatting state that a chat component passes to its children.
#[derive(Clone, Debug)]
pub struct MotdStyle {
    pub color: Option<String>,
    pub bold: bool,
    pub italic: bool,
    pub underlined: bool,
    pub strikethrough: bool,
    pub obfuscated: bool,
}

/// A chat component of a server description.
#[derive(Debug)]
pub enum ChatComponent {
    /// Plain text.
    Text(String),
    /// A list of components, each with the inherited style.
    List(Vec<ChatComponent>),
    /// A styled component with optional text and children.
    Object {
        color: Option<String>,
        bold: Option<bool>,
        italic: Option<bool>,
        underlined: Option<bool>,
        strikethrough: Option<bool>,
        obfuscated: Option<bool>,
        text: Option<String>,
        extra: Vec<ChatComponent>,
    },
    /// Anything else, which renders as nothing.
    Other,
}

/// The classic formatting code of a named color, matched without case.
pub open spec fn color_code(color: Seq<char>) -> Option<char> {
    let c = lower(color);
    if c == "black"@ { Some('0') }
    else if c == "dark_blue"@ { Some('1') }
    else if c == "dark_green"@ { Some('2') }
    else if c == "dark_aqua"@ { Some('3') }
    else if c == "dark_red"@ { Some('4') }
    else if c == "dark_purple"@ { Some('5') }
    else if c == "gold"@ { Some('6') }
    else if c == "gray"@ { Some('7') }
    else if c == "dark_gray"@ { Some('8') }
    else if c == "blue"@ { Some('9') }
    else if c == "green"@ { Some('a') }
    else if c == "aqua"@ { Some('b') }
    else if c == "red"@ { Some('c') }
    else if c == "light_purple"@ { Some('d') }
    else if c == "yellow"@ { Some('e') }
    else if c == "white"@ { Some('f') }
    else { None }
}

/// Looks up the formatting code of a named color.
pub fn color_to_code(color: &str) -> (r: Option<char>)
    ensures
        r == color_code(color@),
{
    let l = to_ascii_lower(color);
    let c = l.as_str();
    if str_eq(c, "black") { Some('0') }
    else if str_eq(c, "dark_blue") { Some('1') }
    else if str_eq(c, "dark_green") { Some('2') }
    else if str_eq(c, "dark_aqua") { Some('3') }
    else if str_eq(c, "dark_red") { Some('4') }
    else if str_eq(c, "dark_purple") { Some('5') }
    else if str_eq(c, "gold") { Some('6') }
    else if str_eq(c, "gray") { Some('7') }
    else if str_eq(c, "dark_gray") { Some('8') }
    else if str_eq(c, "blue") { Some('9') }
    else if str_eq(c, "green") { Some('a') }
    else if str_eq(c, "aqua") { Some('b') }
    else if str_eq(c, "red") { Some('c') }
    else if str_eq(c, "light_purple") { Some('d') }
    else if str_eq(c, "yellow") { Some('e') }
    else if str_eq(c, "white") { Some('f') }
    else { None }
}

/// `§` followed by `c` when `on` holds.
pub open spec fn code_if(on: bool, c: char) -> Seq<char> {
    if on { seq!['§', c] } else { Seq::empty() }
}

/// The codes that start text in a style: `§r` for no style at all, else the
/// color's code (when it is a known color), then bold, strikethrough,
/// underline, italic and obfuscated.
pub open spec fn style_prefix(s: MotdStyle) -> Seq<char> {
    if s.color is None && !s.bold && !s.italic && !s.underlined && !s.strikethrough && !s.obfuscated {
        seq!['§', 'r']
    } else {
        (match s.color {
            Some(c) => match color_code(c@) {
                Some(code) => seq!['§', code],
                None => Seq::empty(),
            },
            None => Seq::empty(),
        }) + code_if(s.bold, 'l') + code_if(s.strikethrough, 'm') + code_if(s.underlined, 'n') + code_if(
            s.italic,
            'o',
        ) + code_if(s.obfuscated, 'k')
    }
}

fn push_code(out: &mut String, on: bool, code: &str)
    requires
        code@.len() == 2,
    ensures
        final(out)@ == old(out)@ + if on { code@ } else { Seq::<char>::empty() },
{
    if on {
        out.append(code);
    } else {
        assert(out@ =~= out@ + Seq::<char>::empty());
    }
}

fn code_str(c: char) -> (r: &'static str)
    ensures
        r@ == seq!['§', c] || (r@.len() == 2 && !(c == '0' || c == '1' || c == '2' || c == '3' || c == '4' || c == '5' || c == '6' || c == '7' || c == '8' || c == '9' || c == 'a' || c == 'b' || c == 'c' || c == 'd' || c == 'e' || c == 'f' || c == 'l' || c == 'm' || c == 'n' || c == 'o' || c == 'k' || c == 'r')),
{
    proof {
        reveal_strlit("§0"); reveal_strlit("§1"); reveal_strlit("§2"); reveal_strlit("§3");
        reveal_strlit("§4"); reveal_strlit("§5"); reveal_strlit("§6"); reveal_strlit("§7");
        reveal_strlit("§8"); reveal_strlit("§9"); reveal_strlit("§a"); reveal_strlit("§b");
        reveal_strlit("§c"); reveal_strlit("§d"); reveal_strlit("§e"); reveal_strlit("§f");
        reveal_strlit("§l"); reveal_strlit("§m"); reveal_strlit("§n"); reveal_strlit("§o");
        reveal_strlit("§k"); reveal_strlit("§r"); reveal_strlit("§?");
    }
    match c {
        '0' => "§0", '1' => "§1", '2' => "§2", '3' => "§3", '4' => "§4", '5' => "§5",
        '6' => "§6", '7' => "§7", '8' => "§8", '9' => "§9", 'a' => "§a", 'b' => "§b",
        'c' => "§c", 'd' => "§d", 'e' => "§e", 'f' => "§f", 'l' => "§l", 'm' => "§m",
        'n' => "§n", 'o' => "§o", 'k' => "§k", 'r' => "§r", _ => "§?",
    }
}

/// The codes that start text in a style.
pub fn get_style_prefix(s: &MotdStyle) -> (r: String)
    ensures
        r@ == style_prefix(*s),
{
    if s.color.is_none() && !s.bold && !s.italic && !s.underlined && !s.strikethrough && !s.obfuscated {
        return code_str('r').to_owned();
    }
    let mut out = String::new();
    match &s.color {
        Some(c) => match color_to_code(c.as_str()) {
            Some(code) => {
                assert(code == '0' || code == '1' || code == '2' || code == '3' || code == '4' || code == '5' || code == '6' || code == '7' || code == '8' || code == '9' || code == 'a' || code == 'b' || code == 'c' || code == 'd' || code == 'e' || code == 'f');
                out.append(code_str(code));
            },
            None => {},
        },
        None => {},
    }
    push_code(&mut out, s.bold, code_str('l'));
    push_code(&mut out, s.strikethrough, code_str('m'));
    push_code(&mut out, s.underlined, code_str('n'));
    push_code(&mut out, s.italic, code_str('o'));
    push_code(&mut out, s.obfuscated, code_str('k'));
    assert(out@ =~= style_prefix(*s));
    out
}

/// The unstyled state.
pub open spec fn plain_style() -> MotdStyle {
    MotdStyle { color: None, bold: false, italic: false, underlined: false, strikethrough: false, obfuscated: false }
}

/// `b` if present, else `d`.
pub open spec fn or_keep(b: Option<bool>, d: bool) -> bool {
    match b {
        Some(x) => x,
        None => d,
    }
}

/// The style of an object component: a color `reset` (in any case) starts
/// from no style, another color replaces the inherited one, and each flag it
/// sets replaces the inherited flag.
pub open spec fn object_style(
    inherited: MotdStyle,
    color: Option<String>,
    bold: Option<bool>,
    italic: Option<bool>,
    underlined: Option<bool>,
    strikethrough: Option<bool>,
    obfuscated: Option<bool>,
) -> MotdStyle {
    let base = match color {
        Some(c) => if lower(c@) == "reset"@ { plain_style() } else { MotdStyle { color: Some(c), ..inherited } },
        None => inherited,
    };
    MotdStyle {
        color: base.color,
        bold: or_keep(bold, base.bold),
        italic: or_keep(italic, base.italic),
        underlined: or_keep(underlined, base.underlined),
        strikethrough: or_keep(strikethrough, base.strikethrough),
        obfuscated: or_keep(obfuscated, base.obfuscated),
    }
}

/// The classic-formatting text of a component in an inherited style: text
/// after its style's codes (nothing for empty text), lists and children in
/// order.
pub open spec fn render(c: ChatComponent, style: MotdStyle) -> Seq<char>
    decreases c, 0nat,
{
    match c {
        ChatComponent::Text(t) => if t@.len() == 0 { Seq::empty() } else { style_prefix(style) + t@ },
        ChatComponent::List(v) => render_all(v@, style),
        ChatComponent::Object { color, bold, italic, underlined, strikethrough, obfuscated, text, extra } => {
            let s = object_style(style, color, bold, italic, underlined, strikethrough, obfuscated);
            (match text {
                Some(t) => if t@.len() == 0 { Seq::empty() } else { style_prefix(s) + t@ },
                None => Seq::empty(),
            }) + render_all(extra@, s)
        },
        ChatComponent::Other => Seq::empty(),
    }
}

/// The components rendered one after another in the same style.
pub open spec fn render_all(items: Seq<ChatComponent>, style: MotdStyle) -> Seq<char>
    decreases items, 1nat,
{
    if items.len() == 0 {
        Seq::empty()
    } else {
        render_all(items.drop_last(), style) + render(items.last(), style)
    }
}

fn copy_style(s: &MotdStyle) -> (r: MotdStyle)
    ensures
        r == *s,
{
    MotdStyle {
        color: match &s.color {
            Some(c) => Some(c.clone()),
            None => None,
        },
        bold: s.bold,
        italic: s.italic,
        underlined: s.underlined,
        strikethrough: s.strikethrough,
        obfuscated: s.obfuscated,
    }
}

/// Renders a component in an inherited style.
pub fn render_component(c: &ChatComponent, style: &MotdStyle) -> (r: String)
    ensures
        r@ == render(*c, *style),
    decreases c, 1nat,
{
    match c {
        ChatComponent::Text(t) => {
            if t.as_str().unicode_len() == 0 {
                String::new()
            } else {
                let mut out = get_style_prefix(style);
                out.append(t.as_str());
                out
            }
        },
        ChatComponent::List(v) => render_list(v, style, c),
        ChatComponent::Object { color, bold, italic, underlined, strikethrough, obfuscated, text, extra } => {
            let mut s = copy_style(style);
            match color {
                Some(col) => {
                    let l = to_ascii_lower(col.as_str());
                    if str_eq(l.as_str(), "reset") {
                        s = MotdStyle { color: None, bold: false, italic: false, underlined: false, strikethrough: false, obfuscated: false };
                    } else {
                        s.color = Some(col.clone());
                    }
                },
                None => {},
            }
            if let Some(b) = bold { s.bold = *b; }
            if let Some(b) = italic { s.italic = *b; }
            if let Some(b) = underlined { s.underlined = *b; }
            if let Some(b) = strikethrough { s.strikethrough = *b; }
            if let Some(b) = obfuscated { s.obfuscated = *b; }
            assert(s == object_style(*style, *color, *bold, *italic, *underlined, *strikethrough, *obfuscated));
            let mut out = String::new();
            match text {
                Some(t) => {
                    if t.as_str().unicode_len() > 0 {
                        out = get_style_prefix(&s);
                        out.append(t.as_str());
                    }
                },
                None => {},
            }
            let rest = render_list(extra, &s, c);
            out.append(rest.as_str());
            out
        },
        ChatComponent::Other => String::new(),
    }
}

fn render_list(v: &Vec<ChatComponent>, style: &MotdStyle, parent: &ChatComponent) -> (r: String)
    requires
        decreases_to!(*parent => *v),
    ensures
        r@ == render_all(v@, *style),
    decreases parent, 0nat,
{
    let mut out = String::new();
    let mut i: usize = 0;
    assert(v@.subrange(0, 0) =~= Seq::<ChatComponent>::empty());
    while i < v.len()
        invariant
            i <= v@.len(),
            decreases_to!(*parent => *v),
            out@ == render_all(v@.subrange(0, i as int), *style),
        decreases v.len() - i,
    {
        proof {
            let t = v@.subrange(0, i + 1);
            assert(t.drop_last() =~= v@.subrange(0, i as int));
            assert(t.last() == v@[i as int]);
        }
        let part = render_component(&v[i], style);
        out.append(part.as_str());
        i = i + 1;
    }
    assert(v@.subrange(0, v@.len() as int) =~= v@);
    out
}

/// The classic-formatting message of the day of a server description.
pub fn parse_motd(description: &ChatComponent) -> (r: String)
    ensures
        r@ == render(*description, plain_style()),
{
    let s = MotdStyle { color: None, bold: false, italic: false, underlined: false, strikethrough: false, obfuscated: false };
    render_component(description, &s)
}

} // verus!
