//! Wire codec for line-delimited JSON-RPC frames.
//!
//! Encoding renders a frame as exactly one JSON object in a canonical field
//! order; the channel terminates it with a newline.  Decoding parses one
//! trimmed line back into a frame.  Payload fields (`params`, `result`,
//! `error`) are embedded as raw JSON text; [`payload_ok`] states the framing
//! discipline they must obey (balanced braces and brackets, quoted strings,
//! no delimiter at top level) for the frame to be recovered intact, and
//! [`check_payload`] decides it.  Decoding failures are non-fatal by design:
//! the caller discards the line.
//!
//! The canonical field order — `jsonrpc` first, then `method` or `result`
//! or `error`, then `params` and `id` — is a protocol requirement on the
//! worker, not merely an encoder choice: the decoder accepts frames in
//! this order and no other, so a peer must emit its fields in it (JSON
//! object order is the producer's to choose).  A frame in another order is
//! discarded like any malformed line.

use vstd::prelude::*;

use crate::rpc::{Frame, FrameModel, RpcMessage, RpcMessageModel, RpcResponse, RpcResponseModel};

verus! {

// ---------------------------------------------------------------------------
// String escaping
// ---------------------------------------------------------------------------
/// How one character is written inside a JSON string: quotes and backslashes
/// get a backslash prefix, everything else stands as itself.
pub open spec fn esc_char(c: char) -> Seq<char> {
    if c == '"' || c == '\\' {
        seq!['\\', c]
    } else {
        seq![c]
    }
}

/// A character sequence escaped for embedding in a JSON string.
pub open spec fn escape_seq(s: Seq<char>) -> Seq<char>
    decreases s.len(),
{
    if s.len() == 0 {
        Seq::empty()
    } else {
        esc_char(s[0]) + escape_seq(s.skip(1))
    }
}

proof fn lemma_escape_push(s: Seq<char>, c: char)
    ensures
        escape_seq(s.push(c)) == escape_seq(s) + esc_char(c),
    decreases s.len(),
{
    if s.len() == 0 {
        assert(s.push(c)[0] == c);
        assert(s.push(c).skip(1) =~= Seq::<char>::empty());
        assert(escape_seq(s.push(c)) == esc_char(c) + escape_seq(Seq::<char>::empty()));
        assert(escape_seq(s.push(c)) =~= escape_seq(s) + esc_char(c));
    } else {
        assert(s.push(c)[0] == s[0]);
        assert(s.push(c).skip(1) =~= s.skip(1).push(c));
        lemma_escape_push(s.skip(1), c);
        assert(escape_seq(s.push(c)) =~= escape_seq(s) + esc_char(c));
    }
}

/// Relies on String::push of std: appends one character.
#[verifier::external_body]
pub(crate) fn push_char(s: &mut String, c: char)
    ensures
        final(s)@ == old(s)@.push(c),
{
    s.push(c);
}

/// Escape a string for embedding in a JSON string.
fn escape_str(s: &str) -> (r: String)
    ensures
        r@ == escape_seq(s@),
{
    let n = s.unicode_len();
    let mut out = String::new();
    let mut i: usize = 0;
    while i < n
        invariant
            n == s@.len(),
            i <= n,
            out@ == escape_seq(s@.subrange(0, i as int)),
        decreases n - i,
    {
        let c = s.get_char(i);
        proof {
            assert(s@.subrange(0, i as int + 1) =~= s@.subrange(0, i as int).push(c));
            lemma_escape_push(s@.subrange(0, i as int), c);
        }
        if c == '"' || c == '\\' {
            push_char(&mut out, '\\');
            push_char(&mut out, c);
        } else {
            push_char(&mut out, c);
        }
        proof {
            assert(out@ =~= escape_seq(s@.subrange(0, i as int + 1)));
        }
        i = i + 1;
    }
    proof {
        assert(s@.subrange(0, n as int) =~= s@);
    }
    out
}

// ---------------------------------------------------------------------------
// Encoding
// ---------------------------------------------------------------------------
/// The optional params clause of an encoded message.
pub open spec fn enc_opt_params(p: Option<Seq<char>>) -> Seq<char> {
    match p {
        Some(v) => ",\"params\":"@ + v,
        None => Seq::empty(),
    }
}

/// The optional id clause of an encoded message.
pub open spec fn enc_opt_id(id: Option<Seq<char>>) -> Seq<char> {
    match id {
        Some(v) => ",\"id\":\""@ + escape_seq(v) + "\""@,
        None => Seq::empty(),
    }
}

/// The canonical encoding of a message frame.
pub open spec fn enc_message(m: RpcMessageModel) -> Seq<char> {
    "{\"jsonrpc\":\""@ + escape_seq(m.version) + "\",\"method\":\""@ + escape_seq(m.method)
        + "\""@ + enc_opt_params(m.params) + enc_opt_id(m.id) + "}"@
}

/// The canonical encoding of a response frame.
pub open spec fn enc_response(r: RpcResponseModel) -> Seq<char> {
    "{\"jsonrpc\":\""@ + escape_seq(r.version) + (if r.result is Some {
        "\",\"result\":"@ + r.result->Some_0
    } else {
        "\",\"error\":"@ + r.error->Some_0
    }) + ",\"id\":\""@ + escape_seq(r.id) + "\""@ + "}"@
}

/// Encode a message as one JSON object, in the canonical field order.
pub fn encode_message(m: &RpcMessage) -> (r: String)
    ensures
        r@ == enc_message(m@),
{
    let mut out = String::from_str("{\"jsonrpc\":\"");
    let ev = escape_str(m.version.as_str());
    out.append(ev.as_str());
    out.append("\",\"method\":\"");
    let em = escape_str(m.method.as_str());
    out.append(em.as_str());
    out.append("\"");
    match &m.params {
        Some(p) => {
            out.append(",\"params\":");
            out.append(p.as_str());
        },
        None => {},
    }
    match &m.id {
        Some(idv) => {
            out.append(",\"id\":\"");
            let ei = escape_str(idv.as_str());
            out.append(ei.as_str());
            out.append("\"");
        },
        None => {},
    }
    out.append("}");
    proof {
        assert(out@ =~= enc_message(m@));
    }
    out
}

/// Encode a response as one JSON object, in the canonical field order.
pub fn encode_response(r: &RpcResponse) -> (s: String)
    requires
        r@.wf(),
    ensures
        s@ == enc_response(r@),
{
    let mut out = String::from_str("{\"jsonrpc\":\"");
    let ev = escape_str(r.version.as_str());
    out.append(ev.as_str());
    match &r.result {
        Some(v) => {
            out.append("\",\"result\":");
            out.append(v.as_str());
        },
        None => {
            out.append("\",\"error\":");
            match &r.error {
                Some(e) => {
                    out.append(e.as_str());
                },
                None => {},
            }
        },
    }
    out.append(",\"id\":\"");
    let ei = escape_str(r.id.as_str());
    out.append(ei.as_str());
    out.append("\"");
    out.append("}");
    proof {
        assert(out@ =~= enc_response(r@));
    }
    out
}

/// Encode a message as one newline-terminated line, ready for the wire.
pub fn encode_message_line(m: &RpcMessage) -> (r: String)
    ensures
        r@ == enc_message(m@).push('\n'),
{
    let mut out = encode_message(m);
    push_char(&mut out, '\n');
    out
}

// ---------------------------------------------------------------------------
// Parsing: specification
// ---------------------------------------------------------------------------
/// The literal `l` stands in `s` at position `i`.
pub open spec fn lit_at(s: Seq<char>, i: int, l: Seq<char>) -> bool {
    0 <= i && i + l.len() <= s.len() && s.subrange(i, i + l.len()) == l
}

/// Parse a JSON string body starting at `i` (just after the opening quote):
/// the unescaped content and the position after the closing quote.
pub open spec fn parse_string_at(s: Seq<char>, i: int) -> Option<(Seq<char>, int)>
    decreases s.len() - i,
{
    if i < 0 || i >= s.len() {
        None
    } else if s[i] == '"' {
        Some((Seq::empty(), i + 1))
    } else if s[i] == '\\' {
        if i + 1 < s.len() && (s[i + 1] == '"' || s[i + 1] == '\\') {
            match parse_string_at(s, i + 2) {
                Some(t) => Some((seq![s[i + 1]] + t.0, t.1)),
                None => None,
            }
        } else {
            None
        }
    } else {
        match parse_string_at(s, i + 1) {
            Some(t) => Some((seq![s[i]] + t.0, t.1)),
            None => None,
        }
    }
}

/// One step of the payload scanner.  The state is the brace/bracket depth,
/// whether the scanner stands inside a quoted string, and whether the last
/// character was an unconsumed backslash.  A closing brace or bracket at
/// depth zero outside a string is malformed.
pub open spec fn scan_step(depth: int, in_str: bool, esc: bool, c: char) -> Option<
    (int, bool, bool),
> {
    if in_str {
        if esc {
            Some((depth, true, false))
        } else if c == '\\' {
            Some((depth, true, true))
        } else if c == '"' {
            Some((depth, false, false))
        } else {
            Some((depth, true, false))
        }
    } else {
        if c == '"' {
            Some((depth, true, false))
        } else if c == '{' || c == '[' {
            Some((depth + 1, false, false))
        } else if c == '}' || c == ']' {
            if depth > 0 {
                Some((depth - 1, false, false))
            } else {
                None
            }
        } else {
            Some((depth, false, false))
        }
    }
}

/// Scan a raw payload value from `i`: the position of the first `,` or `}`
/// standing at depth zero outside a string, or `None` if the text is
/// malformed or runs out first.
pub open spec fn scan_value_at(
    s: Seq<char>,
    i: int,
    depth: int,
    in_str: bool,
    esc: bool,
) -> Option<int>
    decreases s.len() - i,
{
    if i < 0 || i >= s.len() {
        None
    } else if depth == 0 && !in_str && !esc && (s[i] == ',' || s[i] == '}') {
        Some(i)
    } else {
        match scan_step(depth, in_str, esc, s[i]) {
            Some(st) => scan_value_at(s, i + 1, st.0, st.1, st.2),
            None => None,
        }
    }
}

/// A raw payload can be framed and recovered intact: it is nonempty, and a
/// scan of it followed by a delimiter stops exactly at the delimiter.
pub open spec fn payload_ok(p: Seq<char>) -> bool {
    p.len() > 0 && scan_value_at(p + seq![','], 0, 0, false, false) == Some(p.len() as int)
}

/// Parse the rest of a message frame, after `,"method":"`.
pub open spec fn parse_msg_tail(s: Seq<char>, version: Seq<char>, i: int) -> Option<FrameModel> {
    match parse_string_at(s, i) {
        None => None,
        Some(mt) => {
            let method = mt.0;
            let i2 = mt.1;
            let pp = if lit_at(s, i2, ",\"params\":"@) {
                match scan_value_at(s, i2 + ",\"params\":"@.len(), 0, false, false) {
                    None => None,
                    Some(j) => Some((Some(s.subrange(i2 + ",\"params\":"@.len(), j)), j)),
                }
            } else {
                Some((None::<Seq<char>>, i2))
            };
            match pp {
                None => None,
                Some(pr) => {
                    let params = pr.0;
                    let i3 = pr.1;
                    let ii = if lit_at(s, i3, ",\"id\":\""@) {
                        match parse_string_at(s, i3 + ",\"id\":\""@.len()) {
                            None => None,
                            Some(it) => Some((Some(it.0), it.1)),
                        }
                    } else {
                        Some((None::<Seq<char>>, i3))
                    };
                    match ii {
                        None => None,
                        Some(ir) => {
                            let id = ir.0;
                            let i4 = ir.1;
                            if i4 + 1 == s.len() && lit_at(s, i4, "}"@) {
                                Some(
                                    FrameModel::Message(
                                        RpcMessageModel { version, method, params, id },
                                    ),
                                )
                            } else {
                                None
                            }
                        },
                    }
                },
            }
        },
    }
}

/// Parse the rest of a response frame, after `,"result":` or `,"error":`.
pub open spec fn parse_resp_tail(
    s: Seq<char>,
    version: Seq<char>,
    is_result: bool,
    i: int,
) -> Option<FrameModel> {
    match scan_value_at(s, i, 0, false, false) {
        None => None,
        Some(j) => {
            let val = s.subrange(i, j);
            if lit_at(s, j, ",\"id\":\""@) {
                match parse_string_at(s, j + ",\"id\":\""@.len()) {
                    None => None,
                    Some(it) => {
                        if it.1 + 1 == s.len() && lit_at(s, it.1, "}"@) {
                            Some(
                                FrameModel::Response(
                                    RpcResponseModel {
                                        version,
                                        result: if is_result {
                                            Some(val)
                                        } else {
                                            None
                                        },
                                        error: if is_result {
                                            None
                                        } else {
                                            Some(val)
                                        },
                                        id: it.0,
                                    },
                                ),
                            )
                        } else {
                            None
                        }
                    },
                }
            } else {
                None
            }
        },
    }
}

/// Parse one whole frame from a trimmed line.
pub open spec fn parse_frame(s: Seq<char>) -> Option<FrameModel> {
    if !lit_at(s, 0, "{\"jsonrpc\":\""@) {
        None
    } else {
        match parse_string_at(s, "{\"jsonrpc\":\""@.len() as int) {
            None => None,
            Some(vt) => {
                let version = vt.0;
                let i1 = vt.1;
                if lit_at(s, i1, ",\"method\":\""@) {
                    parse_msg_tail(s, version, i1 + ",\"method\":\""@.len())
                } else if lit_at(s, i1, ",\"result\":"@) {
                    parse_resp_tail(s, version, true, i1 + ",\"result\":"@.len())
                } else if lit_at(s, i1, ",\"error\":"@) {
                    parse_resp_tail(s, version, false, i1 + ",\"error\":"@.len())
                } else {
                    None
                }
            },
        }
    }
}

// ---------------------------------------------------------------------------
// Round trip: decoding a canonical encoding recovers the frame
// ---------------------------------------------------------------------------
proof fn lemma_parse_escaped(s: Seq<char>, i: int, v: Seq<char>)
    requires
        0 <= i,
        i + escape_seq(v).len() + 1 <= s.len(),
        s.subrange(i, i + escape_seq(v).len() + 1) == escape_seq(v) + seq!['"'],
    ensures
        parse_string_at(s, i) == Some::<(Seq<char>, int)>((v, i + escape_seq(v).len() + 1)),
    decreases v.len(),
{
    let e = escape_seq(v);
    if v.len() == 0 {
        assert(e =~= Seq::<char>::empty());
        assert(s.subrange(i, i + e.len() + 1)[0] == (e + seq!['"'])[0]);
        assert(s[i] == '"');
        assert(v =~= Seq::<char>::empty());
    } else {
        let c = v[0];
        let v1 = v.skip(1);
        let e1 = escape_seq(v1);
        assert(e == esc_char(c) + e1);
        if c == '"' || c == '\\' {
            assert(e.len() == 2 + e1.len());
            assert(s.subrange(i, i + e.len() + 1)[0] == (e + seq!['"'])[0]);
            assert(s.subrange(i, i + e.len() + 1)[1] == (e + seq!['"'])[1]);
            assert(s[i] == '\\');
            assert(s[i + 1] == c);
            assert forall|k: int| 0 <= k < e1.len() + 1 implies s[i + 2 + k] == (e1 + seq!['"'])[k] by {
                assert(s.subrange(i, i + e.len() + 1)[2 + k] == (e + seq!['"'])[2 + k]);
            }
            assert(s.subrange(i + 2, i + 2 + e1.len() + 1) =~= e1 + seq!['"']);
            lemma_parse_escaped(s, i + 2, v1);
            assert(seq![c] + v1 =~= v);
        } else {
            assert(e.len() == 1 + e1.len());
            assert(s.subrange(i, i + e.len() + 1)[0] == (e + seq!['"'])[0]);
            assert(s[i] == c);
            assert forall|k: int| 0 <= k < e1.len() + 1 implies s[i + 1 + k] == (e1 + seq!['"'])[k] by {
                assert(s.subrange(i, i + e.len() + 1)[1 + k] == (e + seq!['"'])[1 + k]);
            }
            assert(s.subrange(i + 1, i + 1 + e1.len() + 1) =~= e1 + seq!['"']);
            lemma_parse_escaped(s, i + 1, v1);
            assert(seq![c] + v1 =~= v);
        }
    }
}

proof fn lemma_scan_embed(
    s: Seq<char>,
    i: int,
    p: Seq<char>,
    d: char,
    j: int,
    depth: int,
    in_str: bool,
    esc: bool,
)
    requires
        d == ',' || d == '}',
        0 <= j <= p.len(),
        0 <= i,
        i + p.len() + 1 <= s.len(),
        s.subrange(i, i + p.len() + 1) == p + seq![d],
        scan_value_at(p + seq![','], j, depth, in_str, esc) == Some(p.len() as int),
    ensures
        scan_value_at(s, i + j, depth, in_str, esc) == Some(i + p.len()),
    decreases p.len() + 1 - j,
{
    let q = p + seq![','];
    if j == p.len() {
        assert(q[j] == ',');
        if !(depth == 0 && !in_str && !esc) {
            match scan_step(depth, in_str, esc, q[j]) {
                Some(st) => {
                    assert(scan_value_at(q, j + 1, st.0, st.1, st.2) is None);
                },
                None => {},
            }
            assert(false);
        }
        assert(s.subrange(i, i + p.len() + 1)[j] == (p + seq![d])[j]);
        assert(s[i + j] == d);
    } else {
        assert(q[j] == p[j]);
        assert(s.subrange(i, i + p.len() + 1)[j] == (p + seq![d])[j]);
        assert(s[i + j] == p[j]);
        if depth == 0 && !in_str && !esc && (q[j] == ',' || q[j] == '}') {
            assert(scan_value_at(q, j, depth, in_str, esc) == Some(j));
            assert(false);
        }
        match scan_step(depth, in_str, esc, q[j]) {
            Some(st) => {
                assert(scan_value_at(q, j + 1, st.0, st.1, st.2) == Some(p.len() as int));
                lemma_scan_embed(s, i, p, d, j + 1, st.0, st.1, st.2);
                assert(scan_value_at(s, i + j, depth, in_str, esc) == scan_value_at(
                    s,
                    i + j + 1,
                    st.0,
                    st.1,
                    st.2,
                ));
            },
            None => {
                assert(scan_value_at(q, j, depth, in_str, esc) is None);
                assert(false);
            },
        }
    }
}

/// Round trip for messages: decoding the canonical encoding of a message
/// whose params payload (if any) obeys the framing discipline yields that
/// very message.
#[verifier::rlimit(100)]
#[verifier::spinoff_prover]
pub proof fn lemma_message_round_trip(m: RpcMessageModel)
    requires
        match m.params {
            Some(p) => payload_ok(p),
            None => true,
        },
    ensures
        parse_frame(enc_message(m)) == Some(FrameModel::Message(m)),
{
    reveal_strlit("{\"jsonrpc\":\"");
    reveal_strlit("\",\"method\":\"");
    reveal_strlit(",\"method\":\"");
    reveal_strlit(",\"params\":");
    reveal_strlit(",\"id\":\"");
    reveal_strlit("\"");
    reveal_strlit("}");
    let s = enc_message(m);
    let l1 = "{\"jsonrpc\":\""@;
    let ev = escape_seq(m.version);
    let lm = "\",\"method\":\""@;
    let lmeth = ",\"method\":\""@;
    let em = escape_seq(m.method);
    let quo = "\""@;
    let pp = enc_opt_params(m.params);
    let ii = enc_opt_id(m.id);
    let rb = "}"@;
    let lpar = ",\"params\":"@;
    let lid = ",\"id\":\""@;
    assert(l1.len() == 12 && lm.len() == 12 && lmeth.len() == 11 && quo.len() == 1 && rb.len()
        == 1 && lpar.len() == 10 && lid.len() == 7);
    assert(lm =~= seq!['"'] + lmeth);
    assert(s == l1 + ev + lm + em + quo + pp + ii + rb);

    // Frame prefix.
    assert(s.subrange(0, 12) =~= l1);
    assert(lit_at(s, 0, l1));

    // Version string.
    assert(s.subrange(12, 12 + ev.len() as int + 1) =~= ev + seq!['"']);
    lemma_parse_escaped(s, 12, m.version);
    let i1: int = 12 + ev.len() as int + 1;

    // Method marker and method string.
    assert(s.subrange(i1, i1 + 11) =~= lmeth);
    assert(lit_at(s, i1, lmeth));
    let i2m: int = i1 + 11;
    assert(s.subrange(i2m, i2m + em.len() + 1) =~= em + seq!['"']);
    lemma_parse_escaped(s, i2m, m.method);
    let i2: int = i2m + em.len() + 1;
    assert(s.subrange(0, i2) + (pp + ii + rb) =~= s);
    assert(i2 + pp.len() + ii.len() + 1 == s.len());

    // Params clause.
    let i3: int = match m.params {
        Some(p) => {
            assert(pp == lpar + p);
            assert(s.subrange(i2, i2 + 10) =~= lpar);
            assert(lit_at(s, i2, lpar));
            let d: char = if m.id is Some {
                assert(ii == lid + escape_seq(m.id->Some_0) + quo);
                assert(s[i2 + 10 + p.len()] == ',');
                ','
            } else {
                assert(ii.len() == 0);
                assert(s[i2 + 10 + p.len()] == '}');
                '}'
            };
            assert(s.subrange(i2 + 10, i2 + 10 + p.len() + 1) =~= p + seq![d]);
            lemma_scan_embed(s, i2 + 10, p, d, 0, 0, false, false);
            assert(scan_value_at(s, i2 + 10, 0, false, false) == Some(i2 + 10 + p.len()));
            assert(s.subrange(i2 + 10, i2 + 10 + p.len()) =~= p);
            i2 + 10 + p.len()
        },
        None => {
            assert(pp.len() == 0);
            if lit_at(s, i2, lpar) {
                assert(s.subrange(i2, i2 + 10)[2] == lpar[2]);
                assert(s[i2 + 2] == 'p');
                match m.id {
                    Some(v) => {
                        assert(ii == lid + escape_seq(v) + quo);
                        assert(s[i2 + 2] == (ii + rb)[2]);
                        assert(ii[2] == 'i');
                        assert(false);
                    },
                    None => {
                        assert(ii.len() == 0);
                        assert(s.len() == i2 + 1);
                        assert(false);
                    },
                }
            }
            i2
        },
    };

    // Id clause.
    let i4: int = match m.id {
        Some(v) => {
            let eid = escape_seq(v);
            assert(ii == lid + eid + quo);
            assert(s.subrange(i3, i3 + 7) =~= lid);
            assert(lit_at(s, i3, lid));
            assert(s.subrange(i3 + 7, i3 + 7 + eid.len() + 1) =~= eid + seq!['"']);
            lemma_parse_escaped(s, i3 + 7, v);
            i3 + 7 + eid.len() + 1
        },
        None => {
            assert(ii.len() == 0);
            assert(s.len() == i3 + 1);
            assert(!lit_at(s, i3, lid));
            i3
        },
    };

    // Closing brace.
    assert(s[i4] == '}');
    assert(s.subrange(i4, i4 + 1) =~= rb);
    assert(lit_at(s, i4, rb));
    assert(i4 + 1 == s.len());

    assert(parse_msg_tail(s, m.version, i2m) == Some(FrameModel::Message(m)));
}

/// Round trip for responses: decoding the canonical encoding of a
/// well-formed response whose payload obeys the framing discipline yields
/// that very response.
#[verifier::rlimit(60)]
pub proof fn lemma_response_round_trip(r: RpcResponseModel)
    requires
        r.wf(),
        match r.result {
            Some(p) => payload_ok(p),
            None => true,
        },
        match r.error {
            Some(p) => payload_ok(p),
            None => true,
        },
    ensures
        parse_frame(enc_response(r)) == Some(FrameModel::Response(r)),
{
    reveal_strlit("{\"jsonrpc\":\"");
    reveal_strlit(",\"method\":\"");
    reveal_strlit(",\"result\":");
    reveal_strlit(",\"error\":");
    reveal_strlit("\",\"result\":");
    reveal_strlit("\",\"error\":");
    reveal_strlit(",\"id\":\"");
    reveal_strlit("\"");
    reveal_strlit("}");
    let s = enc_response(r);
    let l1 = "{\"jsonrpc\":\""@;
    let ev = escape_seq(r.version);
    let lmeth = ",\"method\":\""@;
    let lres = ",\"result\":"@;
    let lerr = ",\"error\":"@;
    let lid = ",\"id\":\""@;
    let quo = "\""@;
    let rb = "}"@;
    let eid = escape_seq(r.id);
    let is_result = r.result is Some;
    let p: Seq<char> = if is_result {
        r.result->Some_0
    } else {
        r.error->Some_0
    };
    let lv: Seq<char> = if is_result {
        "\",\"result\":"@
    } else {
        "\",\"error\":"@
    };
    assert(l1.len() == 12 && lmeth.len() == 11 && lres.len() == 10 && lerr.len() == 9 && lid.len()
        == 7 && quo.len() == 1 && rb.len() == 1);
    assert(lv =~= quo + (if is_result { lres } else { lerr }));
    assert(s == l1 + ev + (lv + p) + lid + eid + quo + rb);

    // Frame prefix.
    assert(s.subrange(0, 12) =~= l1);
    assert(lit_at(s, 0, l1));

    // Version string: its closing quote is the first character of the
    // quoted result or error marker.
    assert(lv[0] == '"');
    assert(s.subrange(12, 12 + ev.len() as int + 1) =~= ev + seq!['"']);
    lemma_parse_escaped(s, 12, r.version);
    let i1: int = 12 + ev.len() as int + 1;

    // Not a message: the character two past the version's closing quote is
    // 'r' or 'e', never 'm'.
    if lit_at(s, i1, lmeth) {
        assert(s.subrange(i1, i1 + 11)[2] == lmeth[2]);
        assert(s[i1 + 2] == lv[3]);
        assert(false);
    }

    // Value marker and payload.  The scan starts right after the marker;
    // the delimiter that ends the payload is the comma of the id marker.
    let iv: int = i1 + (lv.len() - 1);
    if is_result {
        assert(s.subrange(i1, i1 + 10) =~= lres);
        assert(lit_at(s, i1, lres));
    } else {
        if lit_at(s, i1, lres) {
            assert(s.subrange(i1, i1 + 10)[2] == lres[2]);
            assert(s[i1 + 2] == lv[3]);
            assert(false);
        }
        assert(s.subrange(i1, i1 + 9) =~= lerr);
        assert(lit_at(s, i1, lerr));
    }
    assert(lid[0] == ',');
    assert(s[iv + p.len()] == ',');
    assert(s.subrange(iv, iv + p.len() + 1) =~= p + seq![',']);
    lemma_scan_embed(s, iv, p, ',', 0, 0, false, false);
    assert(scan_value_at(s, iv, 0, false, false) == Some(iv + p.len()));
    assert(s.subrange(iv, iv + p.len()) =~= p);
    let j: int = iv + p.len();

    // Id marker and id string.
    assert(s.subrange(j, j + 7) =~= lid);
    assert(lit_at(s, j, lid));
    assert(s.subrange(j + 7, j + 7 + eid.len() + 1) =~= eid + seq!['"']);
    lemma_parse_escaped(s, j + 7, r.id);
    let i4: int = j + 7 + eid.len() + 1;

    // Closing brace.
    assert(s[i4] == '}');
    assert(s.subrange(i4, i4 + 1) =~= rb);
    assert(lit_at(s, i4, rb));
    assert(i4 + 1 == s.len());

    if is_result {
        assert(parse_resp_tail(s, r.version, true, iv) == Some(FrameModel::Response(r)));
    } else {
        assert(parse_resp_tail(s, r.version, false, iv) == Some(FrameModel::Response(r)));
    }
}

// ---------------------------------------------------------------------------
// Parsing: executable
// ---------------------------------------------------------------------------
/// Match a literal at position `i`; on success return the position after it.
fn eat_lit(s: &str, i: usize, lit: &str) -> (r: Option<usize>)
    ensures
        match r {
            Some(j) => lit_at(s@, i as int, lit@) && j == i + lit@.len(),
            None => !lit_at(s@, i as int, lit@),
        },
{
    let n = s.unicode_len();
    let m = lit.unicode_len();
    if i > n || m > n - i {
        return None;
    }
    let mut j: usize = 0;
    while j < m
        invariant
            n == s@.len(),
            m == lit@.len(),
            i + m <= n,
            j <= m,
            forall|k: int| 0 <= k < j ==> s@[i + k] == lit@[k],
        decreases m - j,
    {
        if s.get_char(i + j) != lit.get_char(j) {
            proof {
                assert(s@.subrange(i as int, i as int + m as int)[j as int] == s@[i + j]);
            }
            return None;
        }
        j = j + 1;
    }
    proof {
        assert(s@.subrange(i as int, i as int + m as int) =~= lit@);
    }
    Some(i + m)
}

/// Parse a JSON string body at `i` (just after the opening quote), returning
/// the unescaped content and the position after the closing quote.
fn parse_string_part(s: &str, i: usize) -> (r: Option<(String, usize)>)
    ensures
        match r {
            Some(t) => parse_string_at(s@, i as int) == Some((t.0@, t.1 as int)),
            None => parse_string_at(s@, i as int) is None,
        },
{
    let n = s.unicode_len();
    if i >= n {
        return None;
    }
    let mut acc = String::new();
    let mut j: usize = i;
    loop
        invariant
            n == s@.len(),
            i <= j,
            j <= n,
            (match parse_string_at(s@, j as int) {
                Some(t) => parse_string_at(s@, i as int) == Some::<(Seq<char>, int)>(
                    (acc@ + t.0, t.1),
                ),
                None => parse_string_at(s@, i as int) is None,
            }),
        decreases n - j,
    {
        if j >= n {
            return None;
        }
        let c = s.get_char(j);
        if c == '"' {
            proof {
                assert(parse_string_at(s@, j as int) == Some::<(Seq<char>, int)>(
                    (Seq::empty(), j + 1),
                ));
                assert(acc@ + Seq::<char>::empty() =~= acc@);
            }
            return Some((acc, j + 1));
        } else if c == '\\' {
            if j + 1 < n {
                let c2 = s.get_char(j + 1);
                if c2 == '"' || c2 == '\\' {
                    proof {
                        if parse_string_at(s@, j as int + 2) is Some {
                            let t2 = parse_string_at(s@, j as int + 2)->Some_0;
                            assert(parse_string_at(s@, j as int) == Some::<(Seq<char>, int)>(
                                (seq![c2] + t2.0, t2.1),
                            ));
                            assert(acc@ + (seq![c2] + t2.0) =~= (acc@.push(c2)) + t2.0);
                        }
                    }
                    push_char(&mut acc, c2);
                    j = j + 2;
                } else {
                    return None;
                }
            } else {
                return None;
            }
        } else {
            proof {
                if parse_string_at(s@, j as int + 1) is Some {
                    let t2 = parse_string_at(s@, j as int + 1)->Some_0;
                    assert(parse_string_at(s@, j as int) == Some::<(Seq<char>, int)>(
                        (seq![c] + t2.0, t2.1),
                    ));
                    assert(acc@ + (seq![c] + t2.0) =~= (acc@.push(c)) + t2.0);
                }
            }
            push_char(&mut acc, c);
            j = j + 1;
        }
    }
}

/// Scan a raw payload value from `i` with the scanner's initial state.
fn scan_value(s: &str, i: usize) -> (r: Option<usize>)
    ensures
        match r {
            Some(j) => scan_value_at(s@, i as int, 0, false, false) == Some(j as int) && i <= j
                < s@.len(),
            None => scan_value_at(s@, i as int, 0, false, false) is None,
        },
{
    let n = s.unicode_len();
    if i >= n {
        return None;
    }
    let mut j: usize = i;
    let mut depth: usize = 0;
    let mut in_str: bool = false;
    let mut esc: bool = false;
    loop
        invariant
            n == s@.len(),
            i <= j,
            j <= n,
            depth <= j,
            scan_value_at(s@, i as int, 0, false, false) == scan_value_at(
                s@,
                j as int,
                depth as int,
                in_str,
                esc,
            ),
        decreases n - j,
    {
        if j >= n {
            return None;
        }
        let c = s.get_char(j);
        if depth == 0 && !in_str && !esc && (c == ',' || c == '}') {
            return Some(j);
        }
        let (ndepth, nin, nesc) = if in_str {
            if esc {
                (depth, true, false)
            } else if c == '\\' {
                (depth, true, true)
            } else if c == '"' {
                (depth, false, false)
            } else {
                (depth, true, false)
            }
        } else {
            if c == '"' {
                (depth, true, false)
            } else if c == '{' || c == '[' {
                (depth + 1, false, false)
            } else if c == '}' || c == ']' {
                if depth > 0 {
                    (depth - 1, false, false)
                } else {
                    proof {
                        assert(scan_step(depth as int, in_str, esc, c) is None);
                        assert(scan_value_at(s@, j as int, depth as int, in_str, esc) is None);
                    }
                    return None;
                }
            } else {
                (depth, false, false)
            }
        };
        proof {
            assert(scan_step(depth as int, in_str, esc, c) == Some::<(int, bool, bool)>(
                (ndepth as int, nin, nesc),
            ));
            assert(scan_value_at(s@, j as int, depth as int, in_str, esc) == scan_value_at(
                s@,
                j as int + 1,
                ndepth as int,
                nin,
                nesc,
            ));
        }
        depth = ndepth;
        in_str = nin;
        esc = nesc;
        j = j + 1;
    }
}

/// Check that a raw payload obeys the framing discipline: it can be embedded
/// in a frame and recovered intact by decoding.
pub fn check_payload(p: &str) -> (r: bool)
    ensures
        r == payload_ok(p@),
{
    let n = p.unicode_len();
    if n == 0 {
        return false;
    }
    let ghost q: Seq<char> = p@ + seq![','];
    let mut j: usize = 0;
    let mut depth: usize = 0;
    let mut in_str: bool = false;
    let mut esc: bool = false;
    loop
        invariant
            n == p@.len(),
            q == p@ + seq![','],
            n > 0,
            j <= n,
            depth <= j,
            scan_value_at(q, 0, 0, false, false) == scan_value_at(
                q,
                j as int,
                depth as int,
                in_str,
                esc,
            ),
        decreases n - j,
    {
        if j >= n {
            proof {
                assert(q[n as int] == ',');
            }
            if depth == 0 && !in_str && !esc {
                proof {
                    assert(scan_value_at(q, n as int, 0, false, false) == Some(n as int));
                }
                return true;
            } else {
                proof {
                    match scan_step(depth as int, in_str, esc, ',') {
                        Some(st) => {
                            assert(scan_value_at(q, n as int + 1, st.0, st.1, st.2) is None);
                        },
                        None => {},
                    }
                    assert(scan_value_at(q, n as int, depth as int, in_str, esc) is None);
                }
                return false;
            }
        }
        let c = p.get_char(j);
        proof {
            assert(q[j as int] == p@[j as int]);
        }
        if depth == 0 && !in_str && !esc && (c == ',' || c == '}') {
            proof {
                assert(scan_value_at(q, j as int, 0, false, false) == Some(j as int));
            }
            return false;
        }
        let (ndepth, nin, nesc) = if in_str {
            if esc {
                (depth, true, false)
            } else if c == '\\' {
                (depth, true, true)
            } else if c == '"' {
                (depth, false, false)
            } else {
                (depth, true, false)
            }
        } else {
            if c == '"' {
                (depth, true, false)
            } else if c == '{' || c == '[' {
                (depth + 1, false, false)
            } else if c == '}' || c == ']' {
                if depth > 0 {
                    (depth - 1, false, false)
                } else {
                    proof {
                        assert(scan_step(depth as int, in_str, esc, c) is None);
                        assert(scan_value_at(q, j as int, depth as int, in_str, esc) is None);
                    }
                    return false;
                }
            } else {
                (depth, false, false)
            }
        };
        proof {
            assert(scan_step(depth as int, in_str, esc, c) == Some::<(int, bool, bool)>(
                (ndepth as int, nin, nesc),
            ));
            assert(scan_value_at(q, j as int, depth as int, in_str, esc) == scan_value_at(
                q,
                j as int + 1,
                ndepth as int,
                nin,
                nesc,
            ));
        }
        depth = ndepth;
        in_str = nin;
        esc = nesc;
        j = j + 1;
    }
}

/// Decode one trimmed line into a frame, or `None` if it is not a canonical
/// frame: the caller discards such a line.
pub fn decode_frame(s: &str) -> (r: Option<Frame>)
    ensures
        match r {
            Some(f) => parse_frame(s@) == Some(f@),
            None => parse_frame(s@) is None,
        },
{
    proof {
        reveal_strlit("}");
    }
    let n = s.unicode_len();
    let i0 = match eat_lit(s, 0, "{\"jsonrpc\":\"") {
        Some(j) => j,
        None => {
            return None;
        },
    };
    let (version, i1) = match parse_string_part(s, i0) {
        Some(t) => t,
        None => {
            return None;
        },
    };
    if let Some(im) = eat_lit(s, i1, ",\"method\":\"") {
        let (method, i2) = match parse_string_part(s, im) {
            Some(t) => t,
            None => {
                return None;
            },
        };
        let (params, i3) = match eat_lit(s, i2, ",\"params\":") {
            Some(ip) => {
                let j = match scan_value(s, ip) {
                    Some(j) => j,
                    None => {
                        return None;
                    },
                };
                let raw = s.substring_char(ip, j);
                (Some(String::from_str(raw)), j)
            },
            None => (None, i2),
        };
        let (id, i4) = match eat_lit(s, i3, ",\"id\":\"") {
            Some(ii) => {
                match parse_string_part(s, ii) {
                    Some(t) => (Some(t.0), t.1),
                    None => {
                        return None;
                    },
                }
            },
            None => (None, i3),
        };
        match eat_lit(s, i4, "}") {
            Some(e) => {
                if e == n {
                    Some(Frame::Message(RpcMessage { version, method, params, id }))
                } else {
                    None
                }
            },
            None => None,
        }
    } else {
        let (is_result, iv) = match eat_lit(s, i1, ",\"result\":") {
            Some(iv) => (true, iv),
            None => {
                match eat_lit(s, i1, ",\"error\":") {
                    Some(iv) => (false, iv),
                    None => {
                        return None;
                    },
                }
            },
        };
        let j = match scan_value(s, iv) {
            Some(j) => j,
            None => {
                return None;
            },
        };
        let raw = String::from_str(s.substring_char(iv, j));
        let ii = match eat_lit(s, j, ",\"id\":\"") {
            Some(ii) => ii,
            None => {
                return None;
            },
        };
        let (id, i4) = match parse_string_part(s, ii) {
            Some(t) => t,
            None => {
                return None;
            },
        };
        match eat_lit(s, i4, "}") {
            Some(e) => {
                if e == n {
                    let (result, error) = if is_result {
                        (Some(raw), None)
                    } else {
                        (None, Some(raw))
                    };
                    Some(Frame::Response(RpcResponse { version, result, error, id }))
                } else {
                    None
                }
            },
            None => None,
        }
    }
}

// ---------------------------------------------------------------------------
// Line handling
// ---------------------------------------------------------------------------
/// Whitespace trimmed at the ends of a received line.
pub open spec fn is_ws(c: char) -> bool {
    c == ' ' || c == '\t' || c == '\r' || c == '\n'
}

/// Position of the first non-whitespace character at or after `i`.
pub open spec fn first_non_ws(s: Seq<char>, i: int) -> int
    decreases s.len() - i,
{
    if i < 0 || i >= s.len() {
        s.len() as int
    } else if is_ws(s[i]) {
        first_non_ws(s, i + 1)
    } else {
        i
    }
}

/// Position just after the last non-whitespace character before `i`.
pub open spec fn last_non_ws(s: Seq<char>, i: int) -> int
    decreases i,
{
    if i <= 0 || i > s.len() {
        0
    } else if is_ws(s[i - 1]) {
        last_non_ws(s, i - 1)
    } else {
        i
    }
}

/// A line with surrounding whitespace removed.
pub open spec fn trimmed(s: Seq<char>) -> Seq<char> {
    if first_non_ws(s, 0) >= last_non_ws(s, s.len() as int) {
        Seq::empty()
    } else {
        s.subrange(first_non_ws(s, 0), last_non_ws(s, s.len() as int))
    }
}

/// Decode one received line: trim it, then parse it as a frame.  An empty or
/// malformed line yields `None`; the caller discards it, so a bad line never
/// harms the reader.
pub fn decode_line(line: &str) -> (r: Option<Frame>)
    ensures
        match r {
            Some(f) => parse_frame(trimmed(line@)) == Some(f@),
            None => parse_frame(trimmed(line@)) is None,
        },
{
    let n = line.unicode_len();
    let mut a: usize = 0;
    while a < n
        invariant
            n == line@.len(),
            a <= n,
            first_non_ws(line@, 0) == first_non_ws(line@, a as int),
        ensures
            a <= n,
            first_non_ws(line@, 0) == (if a == n {
                n as int
            } else {
                a as int
            }),
        decreases n - a,
    {
        let c = line.get_char(a);
        if !(c == ' ' || c == '\t' || c == '\r' || c == '\n') {
            break ;
        }
        a = a + 1;
    }
    let mut b: usize = n;
    while b > a
        invariant
            n == line@.len(),
            a <= b,
            b <= n,
            last_non_ws(line@, n as int) == last_non_ws(line@, b as int),
        ensures
            a <= b,
            b <= n,
            (if b == a {
                last_non_ws(line@, n as int) == last_non_ws(line@, a as int)
            } else {
                last_non_ws(line@, n as int) == b as int
            }),
        decreases b,
    {
        let c = line.get_char(b - 1);
        if !(c == ' ' || c == '\t' || c == '\r' || c == '\n') {
            break ;
        }
        b = b - 1;
    }
    if a >= b {
        proof {
            reveal_strlit("{\"jsonrpc\":\"");
            lemma_last_non_ws_bounds(line@, n as int);
            if a < n {
                lemma_last_non_ws_bounds(line@, a as int);
            }
            assert(trimmed(line@) =~= Seq::<char>::empty());
            assert(!lit_at(Seq::<char>::empty(), 0, "{\"jsonrpc\":\""@));
        }
        return None;
    }
    proof {
        assert(first_non_ws(line@, a as int) == a);
        assert(trimmed(line@) == line@.subrange(a as int, b as int));
    }
    let t = line.substring_char(a, b);
    decode_frame(t)
}

proof fn lemma_last_non_ws_bounds(s: Seq<char>, i: int)
    requires
        i <= s.len(),
    ensures
        0 <= last_non_ws(s, i),
        i >= 0 ==> last_non_ws(s, i) <= i,
    decreases i,
{
    if i <= 0 || i > s.len() {
    } else if is_ws(s[i - 1]) {
        lemma_last_non_ws_bounds(s, i - 1);
    }
}

} // verus!
