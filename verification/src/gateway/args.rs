//! Reading numbers and id lists given as text, the gateway's command line, and the
//! model and feedback-id hints a Damiao scan tries.
use vstd::prelude::*;
use crate::gateway::model::{
    transport_named, unsupported_transport_text, unsupported_vendor_text, vendor_named,
    ServerConfig, Target, Transport, Vendor,
};
use crate::text::{
    chars_eq, chars_of, contains, contains_seq, find_char, first_index_of, has_prefix,
    int_error_message, int_error_text, lower_seq, parse_uint, parse_uint_chars, slice_range,
    dec_text, hex_text, radix_text, radix_text_reads_back, starts_with, str_to_lowercase,
    string_of, to_ascii_lower, trim, trim_chars, unicode_lower, IntErrorKind,
};

verus! {

/// A number written in decimal, or in hexadecimal after `0x`, of at most `max`.
pub open spec fn hex_or_dec(s: Seq<char>, max: int) -> Result<int, IntErrorKind> {
    if has_prefix(s, "0x"@) {
        parse_uint(s.subrange(2, s.len() as int), 16, max)
    } else {
        parse_uint(s, 10, max)
    }
}

/// A number written in decimal, or in upper-case hexadecimal after `0x`, reads back
/// as itself when it is at most `max`.
pub proof fn hex_or_dec_reads_back(n: nat, max: int)
    requires
        n <= max,
    ensures
        hex_or_dec(dec_text(n), max) == Ok::<int, IntErrorKind>(n as int),
        hex_or_dec("0x"@ + hex_text(n, 0), max) == Ok::<int, IntErrorKind>(n as int),
{
    reveal_strlit("0x");
    radix_text_reads_back(n, 10, max);
    radix_text_reads_back(n, 16, max);
    let d = dec_text(n);
    if d.len() >= 2 {
        assert(d[1] != 'x');
        assert(d.subrange(0, 2)[1] == d[1]);
        assert("0x"@[1] == 'x');
        assert(d.subrange(0, 2) != "0x"@);
    }
    assert(!has_prefix(d, "0x"@));
    assert(d[0] != '+');
    let h = radix_text(n, 16);
    assert(hex_text(n, 0) == h);
    let s = "0x"@ + h;
    assert(s.subrange(0, 2) =~= "0x"@);
    assert(s.subrange(2, s.len() as int) =~= h);
    assert(h[0] != '+');
}

pub open spec fn invalid_integer_text(s: Seq<char>, k: IntErrorKind) -> Seq<char> {
    "invalid integer "@ + s + ": "@ + int_error_text(k)
}

pub(crate) fn hex_or_dec_chars(v: &[char], max: u64) -> (r: Result<u64, IntErrorKind>)
    ensures
        match r {
            Ok(n) => hex_or_dec(v@, max as int) == Ok::<int, IntErrorKind>(n as int),
            Err(k) => hex_or_dec(v@, max as int) == Err::<int, IntErrorKind>(k),
        },
{
    let prefix = chars_of("0x");
    if starts_with(v, prefix.as_slice()) {
        proof {
            reveal_strlit("0x");
        }
        let rest = slice_range(v, 2, v.len());
        parse_uint_chars(rest.as_slice(), 16, max)
    } else {
        parse_uint_chars(v, 10, max)
    }
}

fn invalid_integer(s: &str, k: IntErrorKind) -> (m: String)
    ensures
        m@ == invalid_integer_text(s@, k),
{
    let mut m = String::from_str("invalid integer ");
    m.append(s);
    m.append(": ");
    m.append(int_error_message(k).as_str());
    m
}

/// A `u16` in decimal or `0x` hexadecimal.
pub fn parse_hex_or_dec(s: &str) -> (r: Result<u16, String>)
    ensures
        match hex_or_dec(s@, u16::MAX as int) {
            Ok(n) => r matches Ok(x) && x == n,
            Err(k) => r matches Err(m) && m@ == invalid_integer_text(s@, k),
        },
{
    let v = chars_of(s);
    match hex_or_dec_chars(v.as_slice(), u16::MAX as u64) {
        Ok(n) => Ok(n as u16),
        Err(k) => Err(invalid_integer(s, k)),
    }
}

/// A `u32` in decimal or `0x` hexadecimal.
pub fn parse_u32_hex_or_dec(s: &str) -> (r: Result<u32, String>)
    ensures
        match hex_or_dec(s@, u32::MAX as int) {
            Ok(n) => r matches Ok(x) && x == n,
            Err(k) => r matches Err(m) && m@ == invalid_integer_text(s@, k),
        },
{
    let v = chars_of(s);
    match hex_or_dec_chars(v.as_slice(), u32::MAX as u64) {
        Ok(n) => Ok(n as u32),
        Err(k) => Err(invalid_integer(s, k)),
    }
}

/// The ids one comma-separated piece gives: none when it is blank or not a `u16`.
pub open spec fn piece_ids(p: Seq<char>) -> Seq<u16> {
    let t = trim(p);
    if t.len() == 0 {
        Seq::empty()
    } else {
        match hex_or_dec(t, u16::MAX as int) {
            Ok(n) => seq![n as u16],
            Err(_) => Seq::empty(),
        }
    }
}

/// The ids of a comma-separated list, in order; blank and unreadable pieces are skipped.
pub open spec fn csv_ids(s: Seq<char>) -> Seq<u16>
    decreases s.len(),
{
    match first_index_of(s, ',') {
        Some(i) => if 0 <= i < s.len() {
            piece_ids(s.subrange(0, i)) + csv_ids(s.subrange(i + 1, s.len() as int))
        } else {
            piece_ids(s)
        },
        None => piece_ids(s),
    }
}

fn piece_ids_of(p: &[char]) -> (r: Vec<u16>)
    ensures
        r@ == piece_ids(p@),
{
    let t = trim_chars(p);
    let mut r: Vec<u16> = Vec::new();
    if t.len() == 0 {
        assert(r@ =~= piece_ids(p@));
        return r;
    }
    match hex_or_dec_chars(t.as_slice(), u16::MAX as u64) {
        Ok(n) => {
            r.push(n as u16);
            assert(r@ =~= piece_ids(p@));
        },
        Err(_) => {
            assert(r@ =~= piece_ids(p@));
        },
    }
    r
}

fn append_ids(out: &mut Vec<u16>, ids: &Vec<u16>)
    ensures
        final(out)@ == old(out)@ + ids@,
{
    let mut k: usize = 0;
    while k < ids.len()
        invariant
            k <= ids@.len(),
            out@ == old(out)@ + ids@.subrange(0, k as int),
        decreases ids@.len() - k,
    {
        out.push(ids[k]);
        k = k + 1;
        assert(out@ =~= old(out)@ + ids@.subrange(0, k as int));
    }
    assert(ids@.subrange(0, ids@.len() as int) =~= ids@);
}

proof fn lemma_csv_step(s: Seq<char>, i: int)
    requires
        first_index_of(s, ',') == Some(i),
        0 <= i < s.len(),
    ensures
        csv_ids(s) == piece_ids(s.subrange(0, i)) + csv_ids(s.subrange(i + 1, s.len() as int)),
{
}

/// The `u16` ids in a comma-separated list such as `0x11, 0x12,18`.
pub fn parse_id_list_csv(s: &str) -> (r: Vec<u16>)
    ensures
        r@ == csv_ids(s@),
{
    let all = chars_of(s);
    let mut rest = all;
    let mut out: Vec<u16> = Vec::new();
    loop
        invariant
            out@ + csv_ids(rest@) == csv_ids(s@),
        decreases rest@.len(),
    {
        match find_char(rest.as_slice(), ',') {
            Some(i) => {
                assert(i < rest.len());
                let piece = slice_range(rest.as_slice(), 0, i);
                let ids = piece_ids_of(piece.as_slice());
                let tail = slice_range(rest.as_slice(), i + 1, rest.len());
                let ghost before = out@;
                proof {
                    lemma_csv_step(rest@, i as int);
                }
                append_ids(&mut out, &ids);
                assert(out@ + csv_ids(tail@) =~= before + csv_ids(rest@));
                rest = tail;
            },
            None => {
                let ids = piece_ids_of(rest.as_slice());
                let ghost before = out@;
                append_ids(&mut out, &ids);
                assert(out@ =~= before + csv_ids(rest@));
                return out;
            },
        }
    }
}

/// `s` without the entries equal to an earlier one.
pub open spec fn dedup_ids(s: Seq<u16>) -> Seq<u16>
    decreases s.len(),
{
    if s.len() == 0 {
        s
    } else {
        let d = dedup_ids(s.drop_last());
        if d.contains(s.last()) {
            d
        } else {
            d.push(s.last())
        }
    }
}

/// Dropping repeats leaves each entry of `s` exactly once.
pub proof fn dedup_ids_once_each(s: Seq<u16>)
    ensures
        forall|i: int, j: int|
            0 <= i < dedup_ids(s).len() && 0 <= j < dedup_ids(s).len() && i != j ==> dedup_ids(
                s,
            )[i] != dedup_ids(s)[j],
        forall|x: u16| #[trigger] dedup_ids(s).contains(x) <==> s.contains(x),
    decreases s.len(),
{
    if s.len() > 0 {
        let p = s.drop_last();
        let l = s.last();
        dedup_ids_once_each(p);
        let d = dedup_ids(p);
        assert(s =~= p.push(l));
        assert forall|x: u16| s.contains(x) <==> (p.contains(x) || x == l) by {
            if s.contains(x) {
                let k = choose|k: int| 0 <= k < s.len() && s[k] == x;
                if k < s.len() - 1 {
                    assert(p[k] == x);
                }
            }
            if p.contains(x) {
                let k = choose|k: int| 0 <= k < p.len() && p[k] == x;
                assert(s[k] == x);
            }
            if x == l {
                assert(s[s.len() - 1] == x);
            }
        }
        if !d.contains(l) {
            let e = d.push(l);
            assert forall|x: u16| e.contains(x) <==> (d.contains(x) || x == l) by {
                if e.contains(x) {
                    let k = choose|k: int| 0 <= k < e.len() && e[k] == x;
                    if k < d.len() {
                        assert(d[k] == x);
                    }
                }
                if d.contains(x) {
                    let k = choose|k: int| 0 <= k < d.len() && d[k] == x;
                    assert(e[k] == x);
                }
                if x == l {
                    assert(e[d.len() as int] == x);
                }
            }
            assert forall|i: int, j: int|
                0 <= i < e.len() && 0 <= j < e.len() && i != j implies e[i] != e[j] by {
                if i == d.len() {
                    assert(e[j] == d[j]);
                } else if j == d.len() {
                    assert(e[i] == d[i]);
                } else {
                    assert(e[i] == d[i] && e[j] == d[j]);
                }
            }
        }
    }
}

/// The feedback ids a Damiao scan tries for `motor_id`: `motor_id + 0x10`
/// (saturating), the base feedback id, `0x11` and `0x17`, each once.
pub open spec fn feedback_hints(base_feedback_id: u16, motor_id: u16) -> Seq<u16> {
    let inferred = if motor_id + 0x10 > u16::MAX {
        u16::MAX
    } else {
        (motor_id + 0x10) as u16
    };
    dedup_ids(seq![inferred, base_feedback_id, 0x0011u16, 0x0017u16])
}

fn vec_contains(v: &Vec<u16>, x: u16) -> (r: bool)
    ensures
        r == v@.contains(x),
{
    let mut i: usize = 0;
    while i < v.len()
        invariant
            i <= v@.len(),
            forall|k: int| 0 <= k < i ==> v@[k] != x,
        decreases v@.len() - i,
    {
        if v[i] == x {
            assert(v@[i as int] == x);
            return true;
        }
        i = i + 1;
    }
    false
}

pub fn build_scan_feedback_hints(base_feedback_id: u16, motor_id: u16) -> (r: Vec<u16>)
    ensures
        r@ == feedback_hints(base_feedback_id, motor_id),
{
    let inferred = motor_id.saturating_add(0x10);
    let cands: [u16; 4] = [inferred, base_feedback_id, 0x0011, 0x0017];
    let ghost all = seq![inferred, base_feedback_id, 0x0011u16, 0x0017u16];
    assert(cands@ =~= all);
    let mut out: Vec<u16> = Vec::new();
    let mut i: usize = 0;
    while i < 4
        invariant
            i <= 4,
            cands@ == all,
            out@ == dedup_ids(all.subrange(0, i as int)),
        decreases 4 - i,
    {
        let fid = cands[i];
        assert(all.subrange(0, i + 1).drop_last() =~= all.subrange(0, i as int));
        if !vec_contains(&out, fid) {
            out.push(fid);
        }
        i = i + 1;
    }
    assert(all.subrange(0, 4) =~= all);
    out
}

/// The Damiao models a scan tries when no model is named, most likely first.
pub open spec fn damiao_catalog() -> Seq<Seq<char>> {
    seq![
        "4340P"@,
        "4340"@,
        "4310"@,
        "4310P"@,
        "3507"@,
        "6006"@,
        "8006"@,
        "8009"@,
        "10010L"@,
        "10010"@,
        "H3510"@,
        "G6215"@,
        "H6220"@,
        "JH11"@,
        "6248P"@,
    ]
}

/// Whether two names are equal up to ASCII case (`str::eq_ignore_ascii_case`).
pub open spec fn eq_ci(a: Seq<char>, b: Seq<char>) -> bool {
    lower_seq(a) == lower_seq(b)
}

/// `names` without the entries equal, up to ASCII case, to an earlier one.
pub open spec fn dedup_ci(names: Seq<Seq<char>>) -> Seq<Seq<char>>
    decreases names.len(),
{
    if names.len() == 0 {
        names
    } else {
        let d = dedup_ci(names.drop_last());
        if exists|k: int| 0 <= k < d.len() && eq_ci(d[k], names.last()) {
            d
        } else {
            d.push(names.last())
        }
    }
}

/// After dropping case-insensitive repeats, no two model names are equal up to ASCII
/// case, and every name given is still there up to case.
pub proof fn dedup_ci_no_case_twins(names: Seq<Seq<char>>)
    ensures
        forall|i: int, j: int|
            0 <= i < dedup_ci(names).len() && 0 <= j < dedup_ci(names).len() && i != j
                ==> !eq_ci(#[trigger] dedup_ci(names)[i], #[trigger] dedup_ci(names)[j]),
        forall|k: int|
            0 <= k < names.len() ==> exists|m: int|
                0 <= m < dedup_ci(names).len() && eq_ci(#[trigger] names[k], dedup_ci(names)[m]),
    decreases names.len(),
{
    if names.len() > 0 {
        let p = names.drop_last();
        let l = names.last();
        dedup_ci_no_case_twins(p);
        let d = dedup_ci(p);
        if !(exists|k: int| 0 <= k < d.len() && eq_ci(d[k], l)) {
            let e = d.push(l);
            assert forall|i: int, j: int|
                0 <= i < e.len() && 0 <= j < e.len() && i != j implies !eq_ci(
                #[trigger] e[i],
                #[trigger] e[j],
            ) by {
                if i == d.len() {
                    assert(e[j] == d[j]);
                } else if j == d.len() {
                    assert(e[i] == d[i]);
                } else {
                    assert(e[i] == d[i] && e[j] == d[j]);
                }
            }
            assert forall|k: int| 0 <= k < names.len() implies exists|m: int|
                0 <= m < e.len() && eq_ci(#[trigger] names[k], e[m]) by {
                if k < p.len() {
                    assert(names[k] == p[k]);
                    let m = choose|m: int| 0 <= m < d.len() && eq_ci(p[k], d[m]);
                    assert(e[m] == d[m]);
                } else {
                    assert(names[k] == l);
                    assert(e[d.len() as int] == l);
                }
            }
        } else {
            assert forall|k: int| 0 <= k < names.len() implies exists|m: int|
                0 <= m < d.len() && eq_ci(#[trigger] names[k], d[m]) by {
                if k < p.len() {
                    assert(names[k] == p[k]);
                } else {
                    assert(names[k] == l);
                }
            }
        }
    }
}

/// Whether a model hint asks for every model: blank, `auto`, `all` (in any case) or `*`.
pub open spec fn asks_all_models(trimmed: Seq<char>) -> bool {
    trimmed.len() == 0 || unicode_lower(trimmed) == "auto"@ || unicode_lower(trimmed) == "all"@
        || trimmed == "*"@
}

/// The Damiao models a scan tries: the named model alone, or the whole catalog.
pub open spec fn model_hints(preferred: Seq<char>) -> Seq<Seq<char>> {
    let t = trim(preferred);
    if asks_all_models(t) {
        dedup_ci(damiao_catalog())
    } else {
        seq![t]
    }
}

/// The text views of a list of strings.
pub open spec fn texts(v: Seq<String>) -> Seq<Seq<char>> {
    Seq::new(v.len(), |i: int| v[i]@)
}

fn eq_ignore_ascii_case(a: &[char], b: &[char]) -> (r: bool)
    ensures
        r == eq_ci(a@, b@),
{
    let la = to_ascii_lower(a);
    let lb = to_ascii_lower(b);
    chars_eq(la.as_slice(), lb.as_slice())
}

fn catalog_strings() -> (r: Vec<&'static str>)
    ensures
        Seq::new(r@.len(), |i: int| r@[i]@) == damiao_catalog(),
{
    let r = vec![
        "4340P",
        "4340",
        "4310",
        "4310P",
        "3507",
        "6006",
        "8006",
        "8009",
        "10010L",
        "10010",
        "H3510",
        "G6215",
        "H6220",
        "JH11",
        "6248P",
    ];
    assert(Seq::new(r@.len(), |i: int| r@[i]@) =~= damiao_catalog());
    r
}

pub fn build_scan_model_hints(preferred_model: &str) -> (r: Vec<String>)
    ensures
        texts(r@) == model_hints(preferred_model@),
{
    let all = chars_of(preferred_model);
    let t = trim_chars(all.as_slice());
    let trimmed = string_of(t.as_slice());
    let lowered = str_to_lowercase(trimmed.as_str());
    let lv = chars_of(lowered.as_str());
    let is_all = t.len() == 0 || chars_eq(lv.as_slice(), chars_of("auto").as_slice()) || chars_eq(
        lv.as_slice(),
        chars_of("all").as_slice(),
    ) || chars_eq(t.as_slice(), chars_of("*").as_slice());
    if !is_all {
        let mut out: Vec<String> = Vec::new();
        out.push(trimmed);
        assert(texts(out@) =~= seq![t@]);
        return out;
    }
    let cat = catalog_strings();
    let ghost catv = damiao_catalog();
    let mut out: Vec<String> = Vec::new();
    let mut i: usize = 0;
    while i < cat.len()
        invariant
            i <= cat@.len(),
            Seq::new(cat@.len(), |j: int| cat@[j]@) == catv,
            catv == damiao_catalog(),
            texts(out@) == dedup_ci(catv.subrange(0, i as int)),
        decreases cat@.len() - i,
    {
        let m = cat[i];
        let mv = chars_of(m);
        assert(catv[i as int] == m@);
        assert(catv.subrange(0, i + 1).drop_last() =~= catv.subrange(0, i as int));
        assert(catv.subrange(0, i + 1).last() == m@);
        let mut found = false;
        let mut k: usize = 0;
        while k < out.len()
            invariant
                k <= out@.len(),
                mv@ == m@,
                !found ==> forall|j: int| 0 <= j < k ==> !eq_ci(#[trigger] texts(out@)[j], m@),
                found ==> exists|j: int| 0 <= j < out@.len() && eq_ci(#[trigger] texts(out@)[j], m@),
            decreases out@.len() - k,
        {
            let ov = chars_of(out[k].as_str());
            assert(ov@ == texts(out@)[k as int]);
            if !found && eq_ignore_ascii_case(ov.as_slice(), mv.as_slice()) {
                found = true;
            }
            k = k + 1;
        }
        let ghost before = out@;
        if !found {
            out.push(String::from_str(m));
            assert(texts(out@) =~= texts(before).push(m@));
        }
        i = i + 1;
    }
    assert(catv.subrange(0, cat@.len() as int) =~= catv);
    out
}

/// Whether an error text from a WebSocket session only says the peer went away:
/// it mentions a broken pipe, a reset or closed connection, or a receive error
/// (in any ASCII case).
pub open spec fn benign_disconnect(err: Seq<char>) -> bool {
    let s = lower_seq(err);
    contains_seq(s, "broken pipe"@) || contains_seq(s, "connection reset"@) || contains_seq(
        s,
        "ws recv error"@,
    ) || contains_seq(s, "connection closed"@)
}

pub fn is_benign_ws_disconnect(err: &str) -> (r: bool)
    ensures
        r == benign_disconnect(err@),
{
    let all = chars_of(err);
    let s = to_ascii_lower(all.as_slice());
    contains(s.as_slice(), chars_of("broken pipe").as_slice()) || contains(
        s.as_slice(),
        chars_of("connection reset").as_slice(),
    ) || contains(s.as_slice(), chars_of("ws recv error").as_slice()) || contains(
        s.as_slice(),
        chars_of("connection closed").as_slice(),
    )
}

/// Whether a model name leaves the model open: blank, `auto`, `all` or `*`, in any
/// ASCII case and with white space around it.
pub open spec fn model_auto(model: Seq<char>) -> bool {
    let m = lower_seq(trim(model));
    m.len() == 0 || m == "auto"@ || m == "all"@ || m == "*"@
}

pub fn model_is_auto(model: &str) -> (r: bool)
    ensures
        r == model_auto(model@),
{
    let all = chars_of(model);
    let t = trim_chars(all.as_slice());
    let m = to_ascii_lower(t.as_slice());
    m.len() == 0 || chars_eq(m.as_slice(), chars_of("auto").as_slice()) || chars_eq(
        m.as_slice(),
        chars_of("all").as_slice(),
    ) || chars_eq(m.as_slice(), chars_of("*").as_slice())
}

/// The gateway's settings as text and numbers.
pub struct SettingsView {
    pub bind: Seq<char>,
    pub vendor: Vendor,
    pub transport: Transport,
    pub channel: Seq<char>,
    pub serial_port: Seq<char>,
    pub serial_baud: u32,
    pub model: Seq<char>,
    pub motor_id: u16,
    pub feedback_id: u16,
    pub dt_ms: u64,
}

pub open spec fn settings_of(c: ServerConfig) -> SettingsView {
    SettingsView {
        bind: c.bind@,
        vendor: c.target.vendor,
        transport: c.target.transport,
        channel: c.target.channel@,
        serial_port: c.target.serial_port@,
        serial_baud: c.target.serial_baud,
        model: c.target.model@,
        motor_id: c.target.motor_id,
        feedback_id: c.target.feedback_id,
        dt_ms: c.dt_ms,
    }
}

/// The settings before any argument: listen on `0.0.0.0:9002`, a Damiao `4340`-class
/// motor (model `auto`) with id 1 answering on `0x11`, on `can0`, a 20 ms tick.
pub open spec fn default_settings() -> SettingsView {
    SettingsView {
        bind: "0.0.0.0:9002"@,
        vendor: Vendor::Damiao,
        transport: Transport::Auto,
        channel: "can0"@,
        serial_port: "/dev/ttyACM0"@,
        serial_baud: 921600,
        model: "auto"@,
        motor_id: 0x01,
        feedback_id: 0x11,
        dt_ms: 20,
    }
}

/// The settings after the option `key` with `value`, or the text of its error.
pub open spec fn apply_arg(st: SettingsView, key: Seq<char>, value: Seq<char>) -> Result<
    SettingsView,
    Seq<char>,
> {
    if key == "--bind"@ {
        Ok(SettingsView { bind: value, ..st })
    } else if key == "--vendor"@ {
        match vendor_named(unicode_lower(value)) {
            Some(v) => Ok(SettingsView { vendor: v, ..st }),
            None => Err(unsupported_vendor_text(value)),
        }
    } else if key == "--transport"@ {
        match transport_named(unicode_lower(value)) {
            Some(t) => Ok(SettingsView { transport: t, ..st }),
            None => Err(unsupported_transport_text(value)),
        }
    } else if key == "--channel"@ {
        Ok(SettingsView { channel: value, ..st })
    } else if key == "--serial-port"@ {
        Ok(SettingsView { serial_port: value, ..st })
    } else if key == "--serial-baud"@ {
        match parse_uint(value, 10, u32::MAX as int) {
            Ok(b) => Ok(SettingsView { serial_baud: b as u32, ..st }),
            Err(k) => Err("invalid --serial-baud: "@ + int_error_text(k)),
        }
    } else if key == "--model"@ {
        Ok(SettingsView { model: value, ..st })
    } else if key == "--motor-id"@ {
        match hex_or_dec(value, u16::MAX as int) {
            Ok(n) => Ok(SettingsView { motor_id: n as u16, ..st }),
            Err(k) => Err(invalid_integer_text(value, k)),
        }
    } else if key == "--feedback-id"@ {
        match hex_or_dec(value, u16::MAX as int) {
            Ok(n) => Ok(SettingsView { feedback_id: n as u16, ..st }),
            Err(k) => Err(invalid_integer_text(value, k)),
        }
    } else if key == "--dt-ms"@ {
        match parse_uint(value, 10, u64::MAX as int) {
            Ok(d) => Ok(SettingsView { dt_ms: d as u64, ..st }),
            Err(k) => Err("invalid --dt-ms: "@ + int_error_text(k)),
        }
    } else {
        Err("unknown arg: "@ + key)
    }
}

/// The arguments from position `i` on, read in pairs: `None` when help is asked for.
pub open spec fn args_fold(args: Seq<Seq<char>>, i: int, st: SettingsView) -> Result<
    Option<SettingsView>,
    Seq<char>,
>
    decreases args.len() - i,
{
    if i < 0 || i >= args.len() {
        Ok(Some(st))
    } else if args[i] == "--help"@ || args[i] == "-h"@ {
        Ok(None)
    } else if i + 1 >= args.len() {
        Err("missing value for "@ + args[i])
    } else {
        match apply_arg(st, args[i], args[i + 1]) {
            Err(m) => Err(m),
            Ok(st2) => args_fold(args, i + 2, st2),
        }
    }
}

/// The model a vendor uses when the generic `4340`/`4340P` default is left in place.
pub open spec fn vendor_model(v: Vendor, model: Seq<char>) -> Seq<char> {
    if model == "4340P"@ || model == "4340"@ {
        match v {
            Vendor::Robstride => "rs-00"@,
            Vendor::Myactuator => "X8"@,
            Vendor::Hexfellow => "hexfellow"@,
            Vendor::Hightorque => "hightorque"@,
            Vendor::Damiao => model,
        }
    } else {
        model
    }
}

/// The feedback id a vendor uses when the Damiao default `0x11` is left in place.
pub open spec fn vendor_feedback(v: Vendor, feedback_id: u16) -> u16 {
    if feedback_id == 0x11 {
        match v {
            Vendor::Robstride => 0xFFu16,
            Vendor::Myactuator => 0x241u16,
            Vendor::Hexfellow => 0x00u16,
            Vendor::Hightorque => 0x01u16,
            Vendor::Damiao => feedback_id,
        }
    } else {
        feedback_id
    }
}

pub open spec fn with_vendor_defaults(st: SettingsView) -> SettingsView {
    SettingsView {
        model: vendor_model(st.vendor, st.model),
        feedback_id: vendor_feedback(st.vendor, st.feedback_id),
        ..st
    }
}

/// Whether the gateway listens on the loopback interface only: the bind address
/// starts with `127.0.0.1:`, `[::1]:` or `localhost:`.
pub open spec fn bind_local(bind: Seq<char>) -> bool {
    has_prefix(bind, "127.0.0.1:"@) || has_prefix(bind, "[::1]:"@) || has_prefix(
        bind,
        "localhost:"@,
    )
}

pub fn bind_is_local(bind: &str) -> (r: bool)
    ensures
        r == bind_local(bind@),
{
    let b = chars_of(bind);
    let p1 = chars_of("127.0.0.1:");
    let p2 = chars_of("[::1]:");
    let p3 = chars_of("localhost:");
    starts_with(b.as_slice(), p1.as_slice()) || starts_with(b.as_slice(), p2.as_slice())
        || starts_with(b.as_slice(), p3.as_slice())
}

/// What the command line asks for.
#[derive(Clone, Debug)]
pub enum ParsedArgs {
    Help,
    Run(ServerConfig),
}

fn default_config() -> (c: ServerConfig)
    ensures
        settings_of(c) == default_settings(),
{
    ServerConfig {
        bind: String::from_str("0.0.0.0:9002"),
        target: Target {
            vendor: Vendor::Damiao,
            transport: Transport::Auto,
            channel: String::from_str("can0"),
            serial_port: String::from_str("/dev/ttyACM0"),
            serial_baud: 921600,
            model: String::from_str("auto"),
            motor_id: 0x01,
            feedback_id: 0x11,
        },
        dt_ms: 20,
    }
}

fn is_lit(s: &String, lit: &str) -> (r: bool)
    ensures
        r == (s@ == lit@),
{
    let a = chars_of(s.as_str());
    let b = chars_of(lit);
    chars_eq(a.as_slice(), b.as_slice())
}

fn apply_arg_exec(cfg: &mut ServerConfig, key: &String, value: &String) -> (r: Result<(), String>)
    ensures
        match apply_arg(settings_of(*old(cfg)), key@, value@) {
            Ok(st) => r is Ok && settings_of(*final(cfg)) == st,
            Err(m) => r matches Err(e) && e@ == m,
        },
{
    if is_lit(key, "--bind") {
        cfg.bind = value.clone();
    } else if is_lit(key, "--vendor") {
        cfg.target.vendor = Vendor::from_str(value.as_str())?;
    } else if is_lit(key, "--transport") {
        cfg.target.transport = Transport::from_str(value.as_str())?;
    } else if is_lit(key, "--channel") {
        cfg.target.channel = value.clone();
    } else if is_lit(key, "--serial-port") {
        cfg.target.serial_port = value.clone();
    } else if is_lit(key, "--serial-baud") {
        let v = chars_of(value.as_str());
        match parse_uint_chars(v.as_slice(), 10, u32::MAX as u64) {
            Ok(b) => {
                cfg.target.serial_baud = b as u32;
            },
            Err(k) => {
                let mut m = String::from_str("invalid --serial-baud: ");
                m.append(int_error_message(k).as_str());
                return Err(m);
            },
        }
    } else if is_lit(key, "--model") {
        cfg.target.model = value.clone();
    } else if is_lit(key, "--motor-id") {
        cfg.target.motor_id = parse_hex_or_dec(value.as_str())?;
    } else if is_lit(key, "--feedback-id") {
        cfg.target.feedback_id = parse_hex_or_dec(value.as_str())?;
    } else if is_lit(key, "--dt-ms") {
        let v = chars_of(value.as_str());
        match parse_uint_chars(v.as_slice(), 10, u64::MAX) {
            Ok(d) => {
                cfg.dt_ms = d;
            },
            Err(k) => {
                let mut m = String::from_str("invalid --dt-ms: ");
                m.append(int_error_message(k).as_str());
                return Err(m);
            },
        }
    } else {
        let mut m = String::from_str("unknown arg: ");
        m.append(key.as_str());
        return Err(m);
    }
    Ok(())
}

fn apply_vendor_defaults(cfg: &mut ServerConfig)
    ensures
        settings_of(*final(cfg)) == with_vendor_defaults(settings_of(*old(cfg))),
{
    let v = cfg.target.vendor;
    if v != Vendor::Damiao {
        if is_lit(&cfg.target.model, "4340P") || is_lit(&cfg.target.model, "4340") {
            cfg.target.model = String::from_str(
                match v {
                    Vendor::Robstride => "rs-00",
                    Vendor::Myactuator => "X8",
                    Vendor::Hexfellow => "hexfellow",
                    _ => "hightorque",
                },
            );
        }
        if cfg.target.feedback_id == 0x11 {
            cfg.target.feedback_id = match v {
                Vendor::Robstride => 0xFF,
                Vendor::Myactuator => 0x241,
                Vendor::Hexfellow => 0x00,
                _ => 0x01,
            };
        }
    }
}

/// Reads the gateway's command line (without the program name): options in pairs
/// `--key value`, `--help`/`-h` anywhere a key may stand asks for help; then the
/// vendor's own defaults replace the Damiao ones that were left in place.
pub fn parse_args_from(args: &Vec<String>) -> (r: Result<ParsedArgs, String>)
    ensures
        match args_fold(texts(args@), 0, default_settings()) {
            Err(m) => r matches Err(e) && e@ == m,
            Ok(None) => r matches Ok(ParsedArgs::Help),
            Ok(Some(st)) => r matches Ok(ParsedArgs::Run(c)) && settings_of(c)
                == with_vendor_defaults(st),
        },
{
    let ghost a = texts(args@);
    let mut cfg = default_config();
    let mut i: usize = 0;
    while i < args.len()
        invariant
            a == texts(args@),
            i <= args@.len(),
            args_fold(a, 0, default_settings()) == args_fold(a, i as int, settings_of(cfg)),
        decreases args@.len() - i,
    {
        let k = &args[i];
        assert(a[i as int] == k@);
        if is_lit(k, "--help") || is_lit(k, "-h") {
            return Ok(ParsedArgs::Help);
        }
        if i + 1 >= args.len() {
            let mut m = String::from_str("missing value for ");
            m.append(k.as_str());
            return Err(m);
        }
        let next = &args[i + 1];
        assert(a[i + 1] == next@);
        apply_arg_exec(&mut cfg, k, next)?;
        i = i + 2;
    }
    apply_vendor_defaults(&mut cfg);
    Ok(ParsedArgs::Run(cfg))
}

} // verus!
