//! Naming and escaping for the removable-media automount helper: which
//! name a new volume is mounted under, when a directory counts as a mount
//! point, and how the unit instance string is escaped for systemd.
use vstd::prelude::*;
use vstd::utf8::encode_utf8;
use vstd::utf8::is_ascii_chars;
use vstd::utf8::is_ascii_chars_encode_utf8;
use crate::text::string_of;
use crate::text::push_str;

verus! {

/// Bytes that pass through the escaper unchanged: ASCII letters, digits and `_`.
pub open spec fn is_unit_safe(b: u8) -> bool {
    (97 <= b && b <= 122) || (65 <= b && b <= 90) || (48 <= b && b <= 57) || b == 95
}

/// The lower-case hexadecimal digit of `d` (for `d < 16`).
pub open spec fn hex_digit(d: nat) -> char {
    if d < 10 {
        (d + 48) as char
    } else {
        (d + 87) as char
    }
}

/// `n` in lower-case hexadecimal, without leading zeros.
pub open spec fn hex_lower(n: nat) -> Seq<char>
    decreases n,
{
    if n < 16 {
        seq![hex_digit(n)]
    } else {
        hex_lower(n / 16).push(hex_digit(n % 16))
    }
}

/// How one byte is written: itself when safe, else `\x` and its hex value.
pub open spec fn escape_byte(b: u8) -> Seq<char> {
    if is_unit_safe(b) {
        seq![b as char]
    } else {
        seq!['\\', 'x'] + hex_lower(b as nat)
    }
}

/// The escape of a byte string: each byte escaped in turn.
pub open spec fn escape_bytes(bs: Seq<u8>) -> Seq<char>
    decreases bs.len(),
{
    if bs.len() == 0 {
        seq![]
    } else {
        escape_bytes(bs.drop_last()) + escape_byte(bs.last())
    }
}

/// The escape of a text: that of its UTF-8 bytes.
pub open spec fn unit_escape(s: Seq<char>) -> Seq<char> {
    escape_bytes(encode_utf8(s))
}

proof fn lemma_hex_byte(b: u8)
    ensures
        b < 16 ==> hex_lower(b as nat) == seq![hex_digit(b as nat)],
        b >= 16 ==> hex_lower(b as nat) == seq![hex_digit((b as nat) / 16), hex_digit((b as nat) % 16)],
{
    if b >= 16 {
        let n = b as nat;
        assert(n / 16 < 16);
        assert(hex_lower(n / 16) == seq![hex_digit(n / 16)]);
        assert(hex_lower(n) =~= seq![hex_digit(n / 16), hex_digit(n % 16)]);
    }
}

fn hex_char(d: u8) -> (c: char)
    requires
        d < 16,
    ensures
        c == hex_digit(d as nat),
{
    if d < 10 {
        (d + 48) as char
    } else {
        (d + 87) as char
    }
}

/// Escapes `inp` for use in a systemd unit name: every byte of its UTF-8
/// form that is not an ASCII letter, digit or `_` becomes `\x` followed by
/// the byte's value in lower-case hexadecimal without leading zeros.
pub fn systemd_encode(inp: &str) -> (res: String)
    ensures
        res@ == unit_escape(inp@),
{
    let bytes = inp.as_bytes();
    let mut out: Vec<char> = Vec::new();
    let mut i: usize = 0;
    assert(bytes@.take(0) =~= Seq::<u8>::empty());
    while i < bytes.len()
        invariant
            i <= bytes.len(),
            out@ == escape_bytes(bytes@.take(i as int)),
        decreases bytes.len() - i,
    {
        let b = bytes[i];
        let ghost before = out@;
        if (97 <= b && b <= 122) || (65 <= b && b <= 90) || (48 <= b && b <= 57) || b == 95 {
            out.push(b as char);
        } else {
            out.push('\\');
            out.push('x');
            if b >= 16 {
                out.push(hex_char(b / 16));
            }
            out.push(hex_char(b % 16));
            assert(b >= 16 ==> (b as nat) / 16 < 16);
        }
        assert(bytes@.take(i + 1).drop_last() =~= bytes@.take(i as int));
        proof {
            lemma_hex_byte(b);
        }
        assert(out@ =~= before + escape_byte(b));
        i += 1;
    }
    assert(bytes@.take(bytes.len() as int) =~= bytes@);
    string_of(out.as_slice())
}


/// The name a new volume is mounted under: its label, else its UUID,
/// else `<vendor>_<model>_<device>`.
pub open spec fn automount_name_of(
    label: Option<Seq<char>>,
    uuid: Option<Seq<char>>,
    vendor: Option<Seq<char>>,
    model: Option<Seq<char>>,
    device: Option<Seq<char>>,
) -> Seq<char> {
    match label {
        Some(l) => l,
        None => match uuid {
            Some(u) => u,
            None => vendor->0 + "_"@ + model->0 + "_"@ + device->0,
        },
    }
}

/// The view of an optional `String`.
pub open spec fn opt_view(o: Option<String>) -> Option<Seq<char>> {
    match o {
        Some(s) => Some(s@),
        None => None,
    }
}

/// Chooses the mount name of a new volume from its udev properties
/// (`ID_FS_LABEL`, `ID_FS_UUID`, `ID_VENDOR`, `ID_MODEL`) and the device
/// argument. Vendor, model and device are needed only when the volume has
/// neither label nor UUID.
pub fn automount_name(
    label: Option<String>,
    uuid: Option<String>,
    vendor: Option<String>,
    model: Option<String>,
    device: Option<String>,
) -> (res: String)
    requires
        label is Some || uuid is Some || (vendor is Some && model is Some && device is Some),
    ensures
        res@ == automount_name_of(
            opt_view(label),
            opt_view(uuid),
            opt_view(vendor),
            opt_view(model),
            opt_view(device),
        ),
{
    match label {
        Some(l) => l,
        None => match uuid {
            Some(u) => u,
            None => {
                let mut out: Vec<char> = Vec::new();
                match (vendor, model, device) {
                    (Some(v), Some(m), Some(d)) => {
                        push_str(&mut out, v.as_str());
                        push_str(&mut out, "_");
                        push_str(&mut out, m.as_str());
                        push_str(&mut out, "_");
                        push_str(&mut out, d.as_str());
                    },
                    _ => {},
                }
                string_of(out.as_slice())
            },
        },
    }
}

/// What the helper learns from `stat` of a directory.
#[derive(Debug, Clone, Copy)]
pub struct DirStat {
    pub is_dir: bool,
    pub device: u64,
}

/// Whether a path is a mount point: it can be read and is a directory, and
/// either it is its own parent (the root) or its parent can be read and
/// lies on another device.
pub open spec fn is_mount_point_of(stat: Option<DirStat>, is_own_parent: bool, parent: Option<DirStat>) -> bool {
    match stat {
        None => false,
        Some(s) => s.is_dir && (is_own_parent || match parent {
            Some(p) => p.device != s.device,
            None => false,
        }),
    }
}

/// Decides whether a path is a mount point from what `stat` said of it and
/// of its parent (`None` when `stat` failed).
pub fn is_mount_point(stat: Option<DirStat>, is_own_parent: bool, parent: Option<DirStat>) -> (res: bool)
    ensures
        res == is_mount_point_of(stat, is_own_parent, parent),
        res ==> (stat is Some && stat->0.is_dir),
        (stat is Some && stat->0.is_dir && is_own_parent) ==> res,
        (stat is Some && stat->0.is_dir && parent is Some && parent->0.device != stat->0.device) ==> res,
        (!is_own_parent && stat is Some && parent is Some && parent->0.device == stat->0.device) ==> !res,
        (!is_own_parent && parent is None) ==> !res,
{
    match stat {
        None => false,
        Some(s) => s.is_dir && (is_own_parent || match parent {
            Some(p) => p.device != s.device,
            None => false,
        }),
    }
}

/// A readable directory is a mount point exactly when it is the root or its
/// readable parent lies on a different device; which of the two device
/// numbers is the larger does not matter.
pub proof fn law_mount_point_by_devices(s: DirStat, p: DirStat, is_own_parent: bool)
    ensures
        s.is_dir ==> (is_mount_point_of(Some(s), is_own_parent, Some(p)) <==> (is_own_parent
            || p.device != s.device)),
        !s.is_dir ==> !is_mount_point_of(Some(s), is_own_parent, Some(p)),
        is_mount_point_of(Some(s), is_own_parent, Some(p)) == is_mount_point_of(
            Some(DirStat { is_dir: s.is_dir, device: p.device }),
            is_own_parent,
            Some(DirStat { is_dir: p.is_dir, device: s.device }),
        ),
        !is_mount_point_of(None, is_own_parent, Some(p)),
{
}

/// Where a volume named `name` is mounted: `/media/<name>`.
pub fn mount_point(name: &str) -> (res: String)
    ensures
        res@ == "/media/"@ + name@,
{
    let mut out: Vec<char> = Vec::new();
    push_str(&mut out, "/media/");
    push_str(&mut out, name);
    string_of(out.as_slice())
}

/// The next name to try when `name` is already mounted: `name` and `_`.
pub fn next_candidate(name: &str) -> (res: String)
    ensures
        res@ == name@ + "_"@,
{
    let mut out: Vec<char> = Vec::new();
    push_str(&mut out, name);
    push_str(&mut out, "_");
    string_of(out.as_slice())
}

/// The escaped instance string of the mount service: the device node, a
/// space, and the mount point, escaped by `systemd_encode`.
pub fn service_instance(devname: &str, name: &str) -> (res: String)
    ensures
        res@ == unit_escape(devname@ + " /media/"@ + name@),
{
    let mut out: Vec<char> = Vec::new();
    push_str(&mut out, devname);
    push_str(&mut out, " /media/");
    push_str(&mut out, name);
    let line = string_of(out.as_slice());
    systemd_encode(line.as_str())
}

/// A character that the escaper writes as itself: an ASCII letter, digit or `_`.
pub open spec fn is_unit_safe_char(c: char) -> bool {
    ('a' <= c && c <= 'z') || ('A' <= c && c <= 'Z') || ('0' <= c && c <= '9') || c == '_'
}

proof fn lemma_escape_bytes_concat(x: Seq<u8>, y: Seq<u8>)
    ensures
        escape_bytes(x + y) == escape_bytes(x) + escape_bytes(y),
    decreases y.len(),
{
    if y.len() == 0 {
        assert(x + y =~= x);
        assert(escape_bytes(x) + escape_bytes(y) =~= escape_bytes(x));
    } else {
        assert((x + y).drop_last() =~= x + y.drop_last());
        lemma_escape_bytes_concat(x, y.drop_last());
        assert(escape_bytes(x + y) =~= escape_bytes(x) + escape_bytes(y));
    }
}

proof fn lemma_encode_utf8_concat(a: Seq<char>, b: Seq<char>)
    ensures
        encode_utf8(a + b) == encode_utf8(a) + encode_utf8(b),
    decreases a.len(),
{
    if a.len() == 0 {
        assert(a + b =~= b);
        assert(encode_utf8(a) + encode_utf8(b) =~= encode_utf8(b));
    } else {
        assert((a + b).drop_first() =~= a.drop_first() + b);
        lemma_encode_utf8_concat(a.drop_first(), b);
        assert(encode_utf8(a + b) =~= encode_utf8(a) + encode_utf8(b));
    }
}

/// Escaping works piece by piece: the escape of a concatenation is the
/// concatenation of the escapes.
pub proof fn law_escape_concat(a: Seq<char>, b: Seq<char>)
    ensures
        unit_escape(a + b) == unit_escape(a) + unit_escape(b),
{
    lemma_encode_utf8_concat(a, b);
    lemma_escape_bytes_concat(encode_utf8(a), encode_utf8(b));
}

proof fn lemma_escape_safe_bytes(bs: Seq<u8>)
    requires
        forall|i: int| 0 <= i < bs.len() ==> is_unit_safe(#[trigger] bs[i]),
    ensures
        escape_bytes(bs) == bs.map_values(|b: u8| b as char),
    decreases bs.len(),
{
    if bs.len() == 0 {
        assert(escape_bytes(bs) =~= bs.map_values(|b: u8| b as char));
    } else {
        let p = bs.drop_last();
        assert forall|i: int| 0 <= i < p.len() implies is_unit_safe(#[trigger] p[i]) by {
            assert(p[i] == bs[i]);
        }
        lemma_escape_safe_bytes(p);
        assert(is_unit_safe(bs[bs.len() - 1]));
        assert forall|i: int| 0 <= i < bs.len() implies #[trigger] escape_bytes(bs)[i] == (bs[i] as char) by {
            if i < p.len() {
                assert(escape_bytes(bs)[i] == escape_bytes(p)[i]);
                assert(p[i] == bs[i]);
            }
        }
        assert(escape_bytes(bs) =~= bs.map_values(|b: u8| b as char));
    }
}

/// A text of ASCII letters, digits and `_` is its own escape.
pub proof fn law_escape_keeps_safe_text(s: Seq<char>)
    requires
        forall|i: int| 0 <= i < s.len() ==> is_unit_safe_char(#[trigger] s[i]),
    ensures
        unit_escape(s) == s,
{
    assert(is_ascii_chars(s));
    is_ascii_chars_encode_utf8(s);
    let bs = encode_utf8(s);
    assert forall|i: int| 0 <= i < bs.len() implies is_unit_safe(#[trigger] bs[i]) by {
        assert(s[i] as u8 == bs[i]);
        assert(is_unit_safe_char(s[i]));
    }
    lemma_escape_safe_bytes(bs);
    assert forall|i: int| 0 <= i < s.len() implies bs.map_values(|b: u8| b as char)[i] == s[i] by {
        assert(s[i] as u8 == bs[i]);
    }
    assert(bs.map_values(|b: u8| b as char) =~= s);
}

/// Everything the escaper writes is an ASCII letter, digit, `_` or `\`.
pub proof fn law_escape_alphabet(s: Seq<char>)
    ensures
        forall|i: int|
            0 <= i < unit_escape(s).len() ==> is_unit_safe_char(#[trigger] unit_escape(s)[i])
                || unit_escape(s)[i] == '\\',
{
    lemma_escape_bytes_alphabet(encode_utf8(s));
}

proof fn lemma_escape_bytes_alphabet(bs: Seq<u8>)
    ensures
        forall|i: int|
            0 <= i < escape_bytes(bs).len() ==> is_unit_safe_char(#[trigger] escape_bytes(bs)[i])
                || escape_bytes(bs)[i] == '\\',
    decreases bs.len(),
{
    if bs.len() > 0 {
        let p = bs.drop_last();
        let b = bs.last();
        lemma_escape_bytes_alphabet(p);
        let e = escape_byte(b);
        assert forall|i: int| 0 <= i < e.len() implies is_unit_safe_char(#[trigger] e[i])
            || e[i] == '\\' by {
            lemma_hex_byte(b);
        }
        assert forall|i: int| 0 <= i < escape_bytes(bs).len() implies is_unit_safe_char(
            #[trigger] escape_bytes(bs)[i],
        ) || escape_bytes(bs)[i] == '\\' by {
            if i < escape_bytes(p).len() {
                assert(escape_bytes(bs)[i] == escape_bytes(p)[i]);
            } else {
                assert(escape_bytes(bs)[i] == e[i - escape_bytes(p).len()]);
            }
        }
    }
}

} // verus!
