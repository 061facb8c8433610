//! Monitor-port heartbeat: the wire format of a probe and the plan of the
//! listeners to bind.

use vstd::prelude::*;
use vstd::utf8::encode_utf8;

use crate::{AutosshError, MonitorMode};

verus! {

/// The ASCII byte of the digit `d`.
pub open spec fn digit_byte(d: int) -> u8 {
    (48 + d) as u8
}

/// Decimal rendering of `n` as ASCII bytes, no padding.
pub open spec fn decimal_bytes(n: nat) -> Seq<u8>
    decreases n,
{
    if n < 10 {
        seq![digit_byte(n as int)]
    } else {
        decimal_bytes(n / 10).push(digit_byte((n % 10) as int))
    }
}

/// `s` left-padded with ASCII `0` to at least 16 bytes.
pub open spec fn zero_pad16(s: Seq<u8>) -> Seq<u8> {
    if s.len() >= 16 {
        s
    } else {
        Seq::new((16 - s.len()) as nat, |i: int| 48u8) + s
    }
}

/// The heartbeat payload: the timestamp as at least 16 zero-padded ASCII
/// digits, then a single space and the UTF-8 message when there is one,
/// then a newline.
pub open spec fn payload_spec(unix_ts: u64, message: Option<Seq<char>>) -> Seq<u8> {
    zero_pad16(decimal_bytes(unix_ts as nat)) + match message {
        Some(m) => seq![32u8] + encode_utf8(m),
        None => Seq::empty(),
    } + seq![10u8]
}

fn push_decimal_bytes(out: &mut Vec<u8>, n: u64)
    ensures
        final(out)@ == old(out)@ + decimal_bytes(n as nat),
    decreases n,
{
    if n >= 10 {
        push_decimal_bytes(out, n / 10);
    }
    let d: u8 = (n % 10) as u8;
    out.push(48u8 + d);
    proof {
        assert(old(out)@ + decimal_bytes(n as nat) =~= (if n >= 10 {
            old(out)@ + decimal_bytes((n / 10) as nat)
        } else {
            old(out)@
        }).push(digit_byte((n % 10) as int)));
    }
}

/// Builds the heartbeat payload bytes (see [`payload_spec`]); the wire
/// format is byte-identical to upstream autossh.
pub fn probe_payload(unix_ts: u64, message: Option<&str>) -> (r: Vec<u8>)
    ensures
        r@ == payload_spec(unix_ts, match message { Some(m) => Some(m@), None => None }),
{
    let mut digits: Vec<u8> = Vec::new();
    push_decimal_bytes(&mut digits, unix_ts);
    proof {
        assert(digits@ =~= decimal_bytes(unix_ts as nat));
    }
    let mut out: Vec<u8> = Vec::new();
    let mut pad: usize = digits.len();
    while pad < 16
        invariant
            digits.len() <= pad <= 16 || (pad == digits.len() && pad >= 16),
            out@ == Seq::new((pad - digits.len()) as nat, |i: int| 48u8),
        decreases 16 - pad,
    {
        out.push(48u8);
        pad = pad + 1;
        proof {
            assert(out@ =~= Seq::new((pad - digits.len()) as nat, |i: int| 48u8));
        }
    }
    let mut i: usize = 0;
    let ghost pad_part = out@;
    while i < digits.len()
        invariant
            i <= digits.len(),
            out@ == pad_part + digits@.take(i as int),
        decreases digits.len() - i,
    {
        out.push(digits[i]);
        i = i + 1;
        proof {
            assert(out@ =~= pad_part + digits@.take(i as int));
        }
    }
    proof {
        assert(digits@.take(i as int) =~= digits@);
        if digits@.len() >= 16 {
            assert(pad_part =~= Seq::<u8>::empty());
        }
        assert(out@ =~= zero_pad16(decimal_bytes(unix_ts as nat)));
    }
    let ghost head = out@;
    if let Some(msg) = message {
        out.push(32u8);
        let bytes = msg.as_bytes();
        let mut j: usize = 0;
        let ghost with_space = out@;
        while j < bytes.len()
            invariant
                j <= bytes@.len(),
                out@ == with_space + bytes@.take(j as int),
            decreases bytes.len() - j,
        {
            out.push(bytes[j]);
            j = j + 1;
            proof {
                assert(out@ =~= with_space + bytes@.take(j as int));
            }
        }
        proof {
            assert(bytes@.take(j as int) =~= bytes@);
        }
    }
    out.push(10u8);
    proof {
        match message {
            Some(m) => {
                assert(out@ =~= payload_spec(unix_ts, Some(m@)));
            },
            None => {
                assert(out@ =~= payload_spec(unix_ts, None));
            },
        }
    }
    out
}

/// `10^k`.
pub open spec fn pow10(k: nat) -> int
    decreases k,
{
    if k == 0 {
        1
    } else {
        10 * pow10((k - 1) as nat)
    }
}

proof fn lemma_decimal_len(n: nat, k: nat)
    requires
        k >= 1,
        n < pow10(k),
    ensures
        decimal_bytes(n).len() <= k,
    decreases k,
{
    if n >= 10 {
        assert(k >= 2) by {
            if k == 1 {
                assert(pow10(1) == 10 * pow10(0));
            }
        }
        assert(pow10(k) == 10 * pow10((k - 1) as nat));
        lemma_decimal_len(n / 10, (k - 1) as nat);
    }
}

/// Law: without a message the payload of any timestamp below `10^16` is
/// exactly 17 bytes: 16 digits and a newline.
pub proof fn lemma_payload_is_17_bytes(unix_ts: u64)
    requires
        unix_ts < 10_000_000_000_000_000u64,
    ensures
        payload_spec(unix_ts, None).len() == 17,
        payload_spec(unix_ts, None)[16] == 10u8,
{
    reveal_with_fuel(pow10, 17);
    assert(pow10(16) == 10_000_000_000_000_000);
    lemma_decimal_len(unix_ts as nat, 16);
}

/// Whether every byte of `s` is an ASCII digit.
pub open spec fn all_ascii_digits(s: Seq<u8>) -> bool {
    forall|i: int| 0 <= i < s.len() ==> 48 <= #[trigger] s[i] <= 57
}

/// The number that the ASCII digits `s` spell, most significant first.
pub open spec fn ascii_value(s: Seq<u8>) -> int
    decreases s.len(),
{
    if s.len() == 0 {
        0
    } else {
        10 * ascii_value(s.drop_last()) + (s.last() - 48)
    }
}

proof fn lemma_decimal_bytes_spell(n: nat)
    ensures
        all_ascii_digits(decimal_bytes(n)),
        ascii_value(decimal_bytes(n)) == n,
        decimal_bytes(n).len() >= 1,
    decreases n,
{
    let d = decimal_bytes(n);
    if n >= 10 {
        lemma_decimal_bytes_spell(n / 10);
        assert(d.drop_last() =~= decimal_bytes(n / 10));
        assert(d.last() == digit_byte((n % 10) as int));
        assert(digit_byte((n % 10) as int) == 48 + n % 10);
        assert(n == 10 * (n / 10) + n % 10);
        assert(d.len() > 0);
        assert(ascii_value(d) == 10 * ascii_value(d.drop_last()) + (d.last() - 48));
        assert(ascii_value(d) == 10 * (n / 10) + n % 10);
        assert forall|i: int| 0 <= i < d.len() implies 48 <= #[trigger] d[i] <= 57 by {
            if i < d.len() - 1 {
                assert(d[i] == decimal_bytes(n / 10)[i]);
            }
        }
    } else {
        assert(d.drop_last() =~= Seq::<u8>::empty());
        assert(digit_byte(n as int) == 48 + n);
        assert(ascii_value(d) == 10 * ascii_value(d.drop_last()) + (d.last() - 48));
    }
}

proof fn lemma_zeros_keep_value(k: nat, s: Seq<u8>)
    ensures
        ascii_value(Seq::new(k, |i: int| 48u8) + s) == ascii_value(s),
    decreases s.len(), k,
{
    let z = Seq::new(k, |i: int| 48u8);
    if s.len() == 0 {
        assert(z + s =~= z);
        if k > 0 {
            lemma_zeros_keep_value((k - 1) as nat, s);
            assert(z.drop_last() =~= Seq::new((k - 1) as nat, |i: int| 48u8));
            assert(Seq::new((k - 1) as nat, |i: int| 48u8) + s =~= Seq::new((k - 1) as nat, |i: int| 48u8));
        }
    } else {
        lemma_zeros_keep_value(k, s.drop_last());
        assert((z + s).drop_last() =~= z + s.drop_last());
    }
}

/// Law: for a timestamp below `10^16` the first 16 bytes of the payload are
/// ASCII digits that spell the timestamp (zero-padded on the left), and the
/// rest is the newline, or a space, the UTF-8 message and the newline.
pub proof fn lemma_payload_digits_spell_timestamp(unix_ts: u64, message: Option<Seq<char>>)
    requires
        unix_ts < 10_000_000_000_000_000u64,
    ensures
        all_ascii_digits(payload_spec(unix_ts, message).take(16)),
        ascii_value(payload_spec(unix_ts, message).take(16)) == unix_ts,
        payload_spec(unix_ts, message).skip(16) == match message {
            Some(m) => seq![32u8] + encode_utf8(m) + seq![10u8],
            None => seq![10u8],
        },
{
    reveal_with_fuel(pow10, 17);
    assert(pow10(16) == 10_000_000_000_000_000);
    lemma_decimal_len(unix_ts as nat, 16);
    lemma_decimal_bytes_spell(unix_ts as nat);
    let d = decimal_bytes(unix_ts as nat);
    let k = (16 - d.len()) as nat;
    let head = zero_pad16(d);
    assert(head =~= Seq::new(k, |i: int| 48u8) + d);
    lemma_zeros_keep_value(k, d);
    let tail = match message {
        Some(m) => seq![32u8] + encode_utf8(m) + seq![10u8],
        None => seq![10u8],
    };
    assert(payload_spec(unix_ts, message) =~= head + tail);
    assert((head + tail).take(16) =~= head);
    assert((head + tail).skip(16) =~= tail);
    assert forall|i: int| 0 <= i < head.len() implies 48 <= #[trigger] head[i] <= 57 by {
        if i >= k {
            assert(head[i] == d[i - k]);
        }
    }
}

/// Law: with a message, the payload is the message-free payload with a
/// single space and the UTF-8 message inserted before the newline.
pub proof fn lemma_payload_with_message(unix_ts: u64, m: Seq<char>)
    ensures
        payload_spec(unix_ts, Some(m)) == payload_spec(unix_ts, None).drop_last() + seq![32u8] + encode_utf8(m)
            + seq![10u8],
{
    let head = zero_pad16(decimal_bytes(unix_ts as nat));
    assert(payload_spec(unix_ts, None) =~= head + seq![10u8]);
    assert(payload_spec(unix_ts, None).drop_last() =~= head);
    assert(payload_spec(unix_ts, Some(m)) =~= head + seq![32u8] + encode_utf8(m) + seq![10u8]);
}

/// Whether the bytes read back from the tunnel are an echoed copy of the
/// heartbeat payload that was sent.
pub fn reply_matches(payload: &Vec<u8>, reply: &Vec<u8>) -> (r: bool)
    ensures
        r == (payload@ == reply@),
{
    if payload.len() != reply.len() {
        return false;
    }
    let mut i: usize = 0;
    while i < payload.len()
        invariant
            i <= payload@.len(),
            payload@.len() == reply@.len(),
            forall|j: int| 0 <= j < i ==> payload@[j] == reply@[j],
        decreases payload.len() - i,
    {
        if payload[i] != reply[i] {
            return false;
        }
        i = i + 1;
    }
    proof {
        assert(payload@ =~= reply@);
    }
    true
}

/// Errors of one probe round-trip.
#[non_exhaustive]
#[derive(Debug)]
pub enum ProbeError {
    /// The round-trip did not complete within the poll window.
    Timeout,
    /// An I/O failure on the listeners or the echo connection.
    Io(std::io::Error),
}

/// The bound monitor ports.
#[derive(Debug, Clone, Copy, PartialEq, Eq, Structural)]
pub struct MonitorPortPair {
    /// Local listener port (`127.0.0.1:<port>`).
    pub port_in: u16,
    /// Port of the return path: the second listener in pair mode, the
    /// remote echo port otherwise.
    pub port_out: u16,
}

/// The listeners to bind for a monitor mode.
#[derive(Debug)]
pub struct BindPlan {
    /// Port of the input listener (`0` asks for an ephemeral port).
    pub in_port: u16,
    /// Port of the second listener in pair mode (`port + 1`, saturating;
    /// ephemeral when the input port is); `None` in echo mode.
    pub out_port: Option<u16>,
    /// Remote echo port in echo mode.
    pub echo: Option<u16>,
    /// Heartbeat message suffix.
    pub message_suffix: Option<String>,
}

/// The message of the error for a heartbeat message with a newline.
pub const MESSAGE_NEWLINE: &'static str = "AUTOSSH_MESSAGE contains embedded newline";

/// The message of the error for a bind request with monitoring disabled.
pub const BIND_DISABLED: &'static str = "ProbeLoop::bind called with MonitorMode::Disabled";

/// The plan of the listeners for `mode`: a message containing a newline is
/// rejected (it would corrupt the wire format), disabled monitoring binds
/// nothing and is an error, pair mode binds `port` and `port + 1` (both
/// ephemeral for port `0`), echo mode binds `port` only.
pub open spec fn bind_plan_spec(mode: MonitorMode, message: Option<Seq<char>>) -> Result<
    (u16, Option<u16>, Option<u16>),
    &'static str,
> {
    if message is Some && message->0.contains('\n') {
        Err(MESSAGE_NEWLINE)
    } else {
        match mode {
            MonitorMode::Disabled => Err(BIND_DISABLED),
            MonitorMode::Active { port, echo: None } => Ok(
                (port, Some(if port == 0 { 0u16 } else if port < u16::MAX { (port + 1) as u16 } else { port }), None),
            ),
            MonitorMode::Active { port, echo: Some(e) } => Ok((port, None, Some(e))),
        }
    }
}

/// Plans the monitor-port listeners for `mode` (see [`bind_plan_spec`]).
pub fn plan_bind(mode: &MonitorMode, message: Option<&str>) -> (r: Result<BindPlan, AutosshError>)
    ensures
        match bind_plan_spec(*mode, match message { Some(m) => Some(m@), None => None }) {
            Ok((i, o, e)) => r matches Ok(p) && p.in_port == i && p.out_port == o && p.echo == e
                && match p.message_suffix {
                    Some(s) => message is Some && s@ == message->0@,
                    None => message is None,
                },
            Err(msg) => r matches Err(AutosshError::Internal(m)) && m == msg,
        },
{
    let suffix = match message {
        Some(m) => {
            if crate::text::contains_newline(m) {
                return Err(AutosshError::Internal(MESSAGE_NEWLINE));
            }
            Some(String::from_str(m))
        },
        None => None,
    };
    match *mode {
        MonitorMode::Disabled => Err(AutosshError::Internal(BIND_DISABLED)),
        MonitorMode::Active { port, echo: None } => {
            let out_target: u16 = if port == 0 {
                0
            } else if port < u16::MAX {
                port + 1
            } else {
                port
            };
            Ok(BindPlan { in_port: port, out_port: Some(out_target), echo: None, message_suffix: suffix })
        },
        MonitorMode::Active { port, echo: Some(e) } => {
            Ok(BindPlan { in_port: port, out_port: None, echo: Some(e), message_suffix: suffix })
        },
    }
}

/// Law: an active monitor mode with a message free of newlines is always
/// planned: the input listener asks for the configured port; echo mode
/// plans no second listener and keeps the echo port; pair mode plans the
/// second listener on `port + 1` (ephemeral when the input port is).
pub proof fn lemma_active_mode_is_planned(port: u16, echo: Option<u16>, message: Option<Seq<char>>)
    requires
        message is Some ==> !message->0.contains('\n'),
    ensures
        bind_plan_spec(MonitorMode::Active { port, echo }, message) is Ok,
        bind_plan_spec(MonitorMode::Active { port, echo }, message)->Ok_0.0 == port,
        bind_plan_spec(MonitorMode::Active { port, echo }, message)->Ok_0.2 == echo,
        echo is Some ==> bind_plan_spec(MonitorMode::Active { port, echo }, message)->Ok_0.1 is None,
        echo is None && port == 0 ==> bind_plan_spec(MonitorMode::Active { port, echo }, message)->Ok_0.1 == Some(0u16),
        echo is None && 0 < port < u16::MAX ==> bind_plan_spec(MonitorMode::Active { port, echo }, message)->Ok_0.1
            == Some((port + 1) as u16),
{
}

/// Law: a heartbeat message containing a newline is refused for every
/// monitor mode, and disabled monitoring plans no listener.
pub proof fn lemma_bind_refusals(mode: MonitorMode, message: Option<Seq<char>>)
    ensures
        message is Some && message->0.contains('\n') ==> bind_plan_spec(mode, message) == Err::<
            (u16, Option<u16>, Option<u16>),
            &'static str,
        >(MESSAGE_NEWLINE),
        mode == MonitorMode::Disabled ==> bind_plan_spec(mode, message) is Err,
{
}

impl BindPlan {
    /// The port pair once the listeners are bound: the input listener's
    /// actual port, and the second listener's actual port in pair mode or
    /// the echo port in echo mode.
    pub fn port_pair(&self, bound_in: u16, bound_out: Option<u16>) -> (r: MonitorPortPair)
        requires
            self.echo is None ==> bound_out is Some,
        ensures
            r.port_in == bound_in,
            r.port_out == match self.echo {
                Some(e) => e,
                None => bound_out->0,
            },
    {
        match self.echo {
            Some(e) => MonitorPortPair { port_in: bound_in, port_out: e },
            None => MonitorPortPair { port_in: bound_in, port_out: bound_out.unwrap() },
        }
    }
}

/// The monitor mode used for argv injection once listeners are bound: an
/// active mode takes the actual input port (so an ephemeral request is
/// reflected in the forwards); anything else is unchanged.
pub open spec fn bound_mode_spec(mode: MonitorMode, ports: Option<MonitorPortPair>) -> MonitorMode {
    match (mode, ports) {
        (MonitorMode::Active { port, echo }, Some(p)) => MonitorMode::Active { port: p.port_in, echo },
        _ => mode,
    }
}

/// The monitor mode used for argv injection once listeners are bound (see
/// [`bound_mode_spec`]).
pub fn bound_monitor_mode(mode: &MonitorMode, ports: Option<MonitorPortPair>) -> (r: MonitorMode)
    ensures
        r == bound_mode_spec(*mode, ports),
{
    match (*mode, ports) {
        (MonitorMode::Active { port: _, echo }, Some(p)) => MonitorMode::Active { port: p.port_in, echo },
        _ => *mode,
    }
}

} // verus!
