//! Host-side decisions of the evaluation context: actor targets, dot-path
//! lookups, actor message terms, replies from actors, and the local content
//! gateway.
use vstd::prelude::*;

use crate::cbor::{cbor_decoded, decode_cbor, lossy_text, utf8_lossy};
use crate::error::SchemeError;
use crate::text::{chars_of, first_index_of, string_from_chars, trimmed};
use crate::value::{
    cbor_to_value, cbors_of, lemma_cbor_models, lemma_cbors_of, lemma_value_models, value_of,
    value_to_cbor, cbor_of, Cbor, CborModel, Val, ValModel,
};

verus! {

// ── Actor targets ──────────────────────────────────────────────────────────

/// `s` starts with `p`.
pub open spec fn has_prefix(s: Seq<char>, p: Seq<char>) -> bool {
    p.len() <= s.len() && s.take(p.len() as int) == p
}

/// An actor string with a leading `@` added unless it already starts with
/// `@` or `did:`.
pub open spec fn normalized_actor(s: Seq<char>) -> Seq<char> {
    if has_prefix(s, seq!['@']) || has_prefix(s, seq!['d', 'i', 'd', ':']) {
        s
    } else {
        seq!['@'] + s
    }
}

/// Ensure the actor string has a leading `@` or `did:` prefix.
pub fn normalize_actor_str(input: &str) -> (r: String)
    ensures
        r@ == normalized_actor(input@),
{
    let v = chars_of(input);
    let at = v.len() >= 1 && v[0] == '@';
    let did = v.len() >= 4 && v[0] == 'd' && v[1] == 'i' && v[2] == 'd' && v[3] == ':';
    proof {
        assert(at == has_prefix(input@, seq!['@'])) by {
            if v@.len() >= 1 {
                assert(at ==> input@.take(1) =~= seq!['@']);
                assert(input@.take(1)[0] == input@[0]);
            }
        }
        assert(did == has_prefix(input@, seq!['d', 'i', 'd', ':'])) by {
            if v@.len() >= 4 {
                assert(did ==> input@.take(4) =~= seq!['d', 'i', 'd', ':']);
                assert(input@.take(4)[0] == input@[0]);
                assert(input@.take(4)[1] == input@[1]);
                assert(input@.take(4)[2] == input@[2]);
                assert(input@.take(4)[3] == input@[3]);
            }
        }
    }
    if at || did {
        String::from_str(input)
    } else {
        let prefix = String::from_str("@");
        proof {
            reveal_strlit("@");
        }
        assert(prefix@ =~= seq!['@']);
        prefix.concat(input)
    }
}

/// Normalising an actor string twice gives the same result as once, and a
/// normalised actor string always starts with `@` or `did:`.
pub proof fn normalize_actor_is_idempotent(s: Seq<char>)
    ensures
        normalized_actor(normalized_actor(s)) == normalized_actor(s),
        has_prefix(normalized_actor(s), seq!['@']) || has_prefix(
            normalized_actor(s),
            seq!['d', 'i', 'd', ':'],
        ),
{
    let n = normalized_actor(s);
    if !(has_prefix(s, seq!['@']) || has_prefix(s, seq!['d', 'i', 'd', ':'])) {
        assert(n.take(1) =~= seq!['@']);
    }
}

// ── Local content gateway ──────────────────────────────────────────────────

/// `s` without any trailing `c`.
pub open spec fn without_trailing(s: Seq<char>, c: char) -> Seq<char>
    decreases s.len(),
{
    if s.len() > 0 && s.last() == c {
        without_trailing(s.drop_last(), c)
    } else {
        s
    }
}

/// The Kubo RPC `cat` URL for `path` under the RPC base URL `base`: the base
/// without trailing slashes, then `/api/v0/cat?arg=` and the path.
pub fn kubo_cat_url(base: &str, path: &str) -> (r: String)
    ensures
        r@ == without_trailing(base@, '/') + "/api/v0/cat?arg="@ + path@,
{
    let v = chars_of(base);
    let mut end = v.len();
    assert(v@.take(end as int) =~= v@);
    while end > 0 && v[end - 1] == '/'
        invariant
            end <= v@.len(),
            without_trailing(v@, '/') == without_trailing(v@.take(end as int), '/'),
        decreases end,
    {
        assert(v@.take(end as int).drop_last() =~= v@.take(end - 1));
        end = end - 1;
    }
    assert(without_trailing(v@.take(end as int), '/') == v@.take(end as int));
    let head = base.substring_char(0, end);
    let mut url = String::from_str(head);
    url.append("/api/v0/cat?arg=");
    url.append(path);
    url
}

// ── Dot-path lookups ───────────────────────────────────────────────────────

/// A registry path (`my/aliases/sky`) written as a dot path (`my.aliases.sky`).
pub open spec fn dotted(path: Seq<char>) -> Seq<char> {
    Seq::new(path.len(), |i: int| if path[i] == '/' { '.' } else { path[i] })
}

/// The text of an optional string.
pub open spec fn opt_text(o: Option<String>) -> Option<Seq<char>> {
    match o {
        Some(s) => Some(s@),
        None => None,
    }
}

/// Strings as Scheme string values.
pub open spec fn str_models(keys: Seq<String>) -> Seq<ValModel> {
    Seq::new(keys.len(), |i: int| ValModel::Str(keys[i]@))
}

/// What a dot-path read (`.my.path`) evaluates to: the stored value; or,
/// when nothing is stored there, the list of keys under the path; or, when
/// there are none either, the error `no value at .<path>`.
pub open spec fn dot_get_outcome(path: Seq<char>, stored: Option<Seq<char>>, children: Seq<String>) -> Result<
    ValModel,
    Seq<char>,
> {
    match stored {
        Some(v) => Ok(ValModel::Str(v)),
        None => if children.len() == 0 {
            Err("no value at ."@ + dotted(path))
        } else {
            Ok(ValModel::List(str_models(children)))
        },
    }
}

/// The result of reading the dot path `path` from a registry in which
/// `stored` is the value at the path and `children` are the keys listed under
/// it (only consulted when nothing is stored at the path).
pub fn dot_get_result(path: &str, stored: Option<String>, children: Vec<String>) -> (r: Result<
    Val,
    SchemeError,
>)
    ensures
        match (r, dot_get_outcome(path@, opt_text(stored), children@)) {
            (Ok(v), Ok(m)) => v.model() == m,
            (Err(SchemeError::MaError(e)), Err(m)) => e@ == m,
            _ => false,
        },
{
    match stored {
        Some(v) => Ok(Val::Str(v)),
        None => {
            if children.len() == 0 {
                let p = chars_of(path);
                let mut d: Vec<char> = Vec::new();
                let mut i: usize = 0;
                while i < p.len()
                    invariant
                        i <= p@.len(),
                        d@ == dotted(p@).take(i as int),
                    decreases p@.len() - i,
                {
                    d.push(if p[i] == '/' { '.' } else { p[i] });
                    i = i + 1;
                    assert(d@ =~= dotted(p@).take(i as int));
                }
                assert(dotted(p@).take(p@.len() as int) =~= dotted(p@));
                let mut msg = String::from_str("no value at .");
                let tail = string_from_chars(&d);
                msg.append(tail.as_str());
                Err(SchemeError::MaError(msg))
            } else {
                let mut out: Vec<Val> = Vec::new();
                let mut i: usize = 0;
                let mut keys = children;
                let ghost all = keys@;
                // Take the keys from the back so that each one is moved, not copied.
                while keys.len() > 0
                    invariant
                        keys@ == all.take(keys@.len() as int),
                        out@.len() + keys@.len() == all.len(),
                        forall|j: int|
                            0 <= j < out@.len() ==> (#[trigger] out@[j]).model() == ValModel::Str(
                                all[all.len() - 1 - j]@,
                            ),
                    decreases keys@.len(),
                {
                    let k = keys.pop().unwrap();
                    proof {
                        assert(k == all[keys@.len() as int]);
                    }
                    out.push(Val::Str(k));
                    assert(keys@ =~= all.take(keys@.len() as int));
                }
                let mut list: Vec<Val> = Vec::new();
                while out.len() > 0
                    invariant
                        out@.len() + list@.len() == all.len(),
                        forall|j: int|
                            0 <= j < out@.len() ==> (#[trigger] out@[j]).model() == ValModel::Str(
                                all[all.len() - 1 - j]@,
                            ),
                        forall|j: int|
                            0 <= j < list@.len() ==> (#[trigger] list@[j]).model() == ValModel::Str(
                                all[j]@,
                            ),
                    decreases out@.len(),
                {
                    let x = out.pop().unwrap();
                    list.push(x);
                }
                proof {
                    lemma_value_models(list@);
                    assert(Val::models(list@) =~= str_models(all));
                }
                Ok(Val::List(list))
            }
        },
    }
}

/// Reading a dot path gives the stored value where there is one; where there
/// is none, every key under the path, one string per key in the order given,
/// however many there are; and an error only where there are no keys.
pub proof fn dot_reads_list_every_child(path: Seq<char>, stored: Option<Seq<char>>, children: Seq<String>)
    ensures
        stored matches Some(v) ==> dot_get_outcome(path, stored, children) == Ok::<
            ValModel,
            Seq<char>,
        >(ValModel::Str(v)),
        stored is None && children.len() > 0 ==> {
            &&& dot_get_outcome(path, stored, children) matches Ok(ValModel::List(items))
            &&& items.len() == children.len()
            &&& forall|i: int|
                0 <= i < children.len() ==> #[trigger] items[i] == ValModel::Str(children[i]@)
        },
        dot_get_outcome(path, stored, children) is Err <==> (stored is None && children.len()
            == 0),
        stored is None && children.len() == 0 ==> dot_get_outcome(path, stored, children) == Err::<
            ValModel,
            Seq<char>,
        >("no value at ."@ + dotted(path)),
        dotted(path).len() == path.len(),
        forall|i: int|
            0 <= i < path.len() ==> #[trigger] dotted(path)[i] == if path[i] == '/' {
                '.'
            } else {
                path[i]
            },
{
}

// ── Actor messages ─────────────────────────────────────────────────────────

/// The verb as an atom: with a leading `:` added unless it has one.
pub open spec fn verb_atom(verb: Seq<char>) -> Seq<char> {
    if verb.len() > 0 && verb[0] == ':' {
        verb
    } else {
        seq![':'] + verb
    }
}

/// The term an actor message carries: the verb atom alone when there are no
/// arguments, or an array of the verb atom followed by the arguments.
pub open spec fn actor_message(verb: Seq<char>, args: Seq<ValModel>) -> CborModel {
    if args.len() == 0 {
        CborModel::Text(verb_atom(verb))
    } else {
        CborModel::Array(seq![CborModel::Text(verb_atom(verb))] + cbors_of(args))
    }
}

/// The CBOR term of the message `verb(args)` sent to an actor.
pub fn actor_message_term(verb: &str, args: &[Val]) -> (c: Cbor)
    ensures
        c.model() == actor_message(verb@, Val::models(args@)),
{
    let v = chars_of(verb);
    let atom: String = if v.len() > 0 && v[0] == ':' {
        String::from_str(verb)
    } else {
        let colon = String::from_str(":");
        proof {
            reveal_strlit(":");
        }
        assert(colon@ =~= seq![':']);
        colon.concat(verb)
    };
    proof {
        lemma_value_models(args@);
    }
    if args.len() == 0 {
        return Cbor::Text(atom);
    }
    let mut items: Vec<Cbor> = Vec::new();
    items.push(Cbor::Text(atom));
    let mut i: usize = 0;
    while i < args.len()
        invariant
            i <= args@.len(),
            items@.len() == i + 1,
            items@[0].model() == CborModel::Text(verb_atom(verb@)),
            forall|j: int|
                0 <= j < i ==> (#[trigger] items@[j + 1]).model() == crate::value::cbor_of(
                    args@[j].model(),
                ),
        decreases args@.len() - i,
    {
        let c = value_to_cbor(&args[i]);
        items.push(c);
        i = i + 1;
    }
    proof {
        lemma_cbor_models(items@);
        lemma_cbors_of(Val::models(args@));
        let expect = seq![CborModel::Text(verb_atom(verb@))] + cbors_of(Val::models(args@));
        assert forall|j: int| 0 <= j < items@.len() implies Cbor::models(items@)[j] == expect[j] by {
            if j > 0 {
                assert(items@[(j - 1) + 1].model() == crate::value::cbor_of(args@[j - 1].model()));
            }
        }
        assert(Cbor::models(items@) =~= expect);
    }
    Cbor::Array(items)
}

/// A message term carries every argument: with no arguments it is the verb
/// atom alone; otherwise an array of the verb atom followed by the term of
/// each argument, one per argument, in order. The atom starts with `:`, and
/// a verb written with or without its `:` gives the same atom.
pub proof fn messages_carry_every_argument(verb: Seq<char>, args: Seq<ValModel>)
    ensures
        args.len() == 0 ==> actor_message(verb, args) == CborModel::Text(verb_atom(verb)),
        args.len() > 0 ==> {
            &&& actor_message(verb, args) matches CborModel::Array(items)
            &&& items.len() == args.len() + 1
            &&& items[0] == CborModel::Text(verb_atom(verb))
            &&& forall|i: int| 0 <= i < args.len() ==> #[trigger] items[i + 1] == cbor_of(args[i])
        },
        verb_atom(verb).len() > 0 && verb_atom(verb)[0] == ':',
        verb.len() == 0 || verb[0] != ':' ==> verb_atom(seq![':'] + verb) == verb_atom(verb),
{
    lemma_cbors_of(args);
    if args.len() > 0 {
        let items = seq![CborModel::Text(verb_atom(verb))] + cbors_of(args);
        assert forall|i: int| 0 <= i < args.len() implies #[trigger] items[i + 1] == cbor_of(
            args[i],
        ) by {
            assert(items[i + 1] == cbors_of(args)[i]);
        }
    }
    assert((seq![':'] + verb)[0] == ':');
}

// ── Replies from actors ────────────────────────────────────────────────────

/// What a decoded reply term means. `[":ok", v, …]` succeeds with `v`;
/// `[":ok"]`, like a bare `":ok"`, succeeds with the atom `":ok"`;
/// `[":error", reason, …]` fails with `reason` when it is text, and with
/// `raw` (the undecoded reply as text) otherwise; anything else succeeds with
/// the value the term stands for.
pub open spec fn reply_of_term(c: CborModel, raw: Seq<char>) -> Result<ValModel, Seq<char>> {
    match c {
        CborModel::Array(items) => if items.len() > 0 && items[0] == CborModel::Text(":ok"@) {
            if items.len() > 1 {
                Ok(value_of(items[1]))
            } else {
                Ok(ValModel::Str(":ok"@))
            }
        } else if items.len() > 0 && items[0] == CborModel::Text(":error"@) {
            if items.len() > 1 && items[1] is Text {
                Err(items[1]->Text_0)
            } else {
                Err(raw)
            }
        } else {
            Ok(value_of(c))
        },
        _ => Ok(value_of(c)),
    }
}

/// What a reply payload means: a payload that is not CBOR is its own text.
pub open spec fn reply_of(payload: Seq<u8>) -> Result<ValModel, Seq<char>> {
    match cbor_decoded(payload) {
        None => Ok(ValModel::Str(utf8_lossy(payload))),
        Some(c) => reply_of_term(c, utf8_lossy(payload)),
    }
}

/// Only an `:error` reply fails. A reply term is an error only when it is an
/// array whose first item is the atom `:error`; an array whose first item is
/// the atom `:ok` gives its second item (or the atom `:ok` where there is
/// none); every other term, arrays with any other first item among them,
/// means the value the whole term stands for.
pub proof fn only_error_replies_fail(c: CborModel, raw: Seq<char>)
    ensures
        reply_of_term(c, raw) is Err ==> {
            &&& c matches CborModel::Array(items)
            &&& items.len() > 0
            &&& items[0] == CborModel::Text(":error"@)
        },
        c matches CborModel::Array(items) ==> (items.len() > 1 && items[0] == CborModel::Text(
            ":ok"@,
        ) ==> reply_of_term(c, raw) == Ok::<ValModel, Seq<char>>(value_of(items[1]))),
        c matches CborModel::Array(items) ==> (items.len() > 1 && items[0] == CborModel::Text(
            ":error"@,
        ) && items[1] is Text ==> reply_of_term(c, raw) == Err::<ValModel, Seq<char>>(
            items[1]->Text_0,
        )),
        c matches CborModel::Array(items) ==> (items.len() == 1 && items[0] == CborModel::Text(
            ":ok"@,
        ) ==> reply_of_term(c, raw) == Ok::<ValModel, Seq<char>>(ValModel::Str(":ok"@))),
        c matches CborModel::Array(items) ==> (items.len() > 0 && items[0] == CborModel::Text(
            ":error"@,
        ) && !(items.len() > 1 && items[1] is Text) ==> reply_of_term(c, raw) == Err::<
            ValModel,
            Seq<char>,
        >(raw)),
        !(c is Array) ==> reply_of_term(c, raw) == Ok::<ValModel, Seq<char>>(value_of(c)),
        c matches CborModel::Array(items) ==> (items.len() == 0 || (items[0] != CborModel::Text(
            ":ok"@,
        ) && items[0] != CborModel::Text(":error"@)) ==> reply_of_term(c, raw) == Ok::<
            ValModel,
            Seq<char>,
        >(value_of(c))),
{
    reveal_strlit(":ok");
    reveal_strlit(":error");
    assert(":ok"@[1] != ":error"@[1]);
}

/// The model of a reply outcome.
pub open spec fn outcome_model(r: Result<Val, String>) -> Result<ValModel, Seq<char>> {
    match r {
        Ok(v) => Ok(v.model()),
        Err(e) => Err(e@),
    }
}

/// The value or error a decoded reply term `c` carries; `raw` is the reply
/// payload as text, the error where an `:error` term gives no text reason.
pub fn reply_from_term(c: &Cbor, raw: &str) -> (r: Result<Val, String>)
    ensures
        outcome_model(r) == reply_of_term(c.model(), raw@),
{
    match c {
        Cbor::Array(items) => {
            proof {
                lemma_cbor_models(items@);
            }
            if items.len() > 0 {
                if let Cbor::Text(verb) = &items[0] {
                    let ok = String::from_str(":ok");
                    let error = String::from_str(":error");
                    if verb.eq(&ok) {
                        if items.len() > 1 {
                            return Ok(cbor_to_value(&items[1]));
                        } else {
                            return Ok(Val::Str(String::from_str(":ok")));
                        }
                    } else if verb.eq(&error) {
                        if items.len() > 1 {
                            if let Cbor::Text(reason) = &items[1] {
                                return Err(reason.clone());
                            }
                        }
                        return Err(String::from_str(raw));
                    }
                }
            }
            Ok(cbor_to_value(c))
        },
        _ => Ok(cbor_to_value(c)),
    }
}

/// Decode an actor reply payload into the value or error it carries.
pub fn decode_reply(payload: &[u8]) -> (r: Result<Val, String>)
    ensures
        outcome_model(r) == reply_of(payload@),
{
    let raw = lossy_text(payload);
    match decode_cbor(payload) {
        None => Ok(Val::Str(raw)),
        Some(c) => reply_from_term(&c, raw.as_str()),
    }
}

/// A bare `":ok"` acknowledgement and the one-element array `[":ok"]` mean
/// the same: success with the atom `":ok"`, never nil.
pub proof fn ok_ack_forms_agree(raw: Seq<char>)
    ensures
        reply_of_term(CborModel::Text(":ok"@), raw) == reply_of_term(
            CborModel::Array(seq![CborModel::Text(":ok"@)]),
            raw,
        ),
        reply_of_term(CborModel::Text(":ok"@), raw) == Ok::<ValModel, Seq<char>>(
            ValModel::Str(":ok"@),
        ),
{
}

// ── Dot-path commands ──────────────────────────────────────────────────────

/// The operation of a path command.
#[derive(Debug, PartialEq, Eq)]
pub enum DotCommand {
    /// `.my.path` — return the stored value or list children.
    Get,
    /// `.my.path: value` — store `value` at the path.
    Store(String),
    /// `.my.path:` — delete the subtree rooted at the path.
    Delete,
    /// `.my.path!verb [args]` — dispatch a side-effect verb.
    Meta { verb: String, args: String },
}

/// Mathematical model of [`DotCommand`].
pub enum DotModel {
    Get,
    Store(Seq<char>),
    Delete,
    Meta { verb: Seq<char>, args: Seq<char> },
}

impl DotCommand {
    pub open spec fn model(self) -> DotModel {
        match self {
            DotCommand::Get => DotModel::Get,
            DotCommand::Store(v) => DotModel::Store(v@),
            DotCommand::Delete => DotModel::Delete,
            DotCommand::Meta { verb, args } => DotModel::Meta { verb: verb@, args: args@ },
        }
    }
}

/// `s` with each '.' replaced by '/'.
pub open spec fn dots_to_slashes(s: Seq<char>) -> Seq<char> {
    s.map_values(|c: char| if c == '.' { '/' } else { c })
}

/// The verb and arguments of the text after a '!': the text trimmed, then
/// split at its first space; no arguments where it has no space.
pub open spec fn verb_and_args(rest: Seq<char>) -> (Seq<char>, Seq<char>) {
    let r = trimmed(rest);
    match first_index_of(r, ' ') {
        Some(k) => (r.subrange(0, k), r.subrange(k + 1, r.len() as int)),
        None => (r, Seq::empty()),
    }
}

/// The registry path and operation of a path command, or `None` where it is
/// rejected. The command is trimmed and must start with exactly one '.'; the
/// rest, with '.' read as '/', is the path. A '!' starts a verb and its
/// arguments; failing that, a ':' starts a value to store, or marks a delete
/// where the trimmed value is empty; otherwise the command reads the path.
pub open spec fn dot_command_parsed(command: Seq<char>) -> Option<(Seq<char>, DotModel)> {
    let t = trimmed(command);
    if t.len() < 2 || t[0] != '.' || t[1] == '.' {
        None
    } else {
        let s = dots_to_slashes(t.drop_first());
        match first_index_of(s, '!') {
            Some(i) => {
                let (verb, args) = verb_and_args(s.subrange(i + 1, s.len() as int));
                Some((s.subrange(0, i), DotModel::Meta { verb, args }))
            },
            None => match first_index_of(s, ':') {
                Some(j) => {
                    let v = trimmed(s.subrange(j + 1, s.len() as int));
                    if v.len() == 0 {
                        Some((s.subrange(0, j), DotModel::Delete))
                    } else {
                        Some((s.subrange(0, j), DotModel::Store(v)))
                    }
                },
                None => Some((s, DotModel::Get)),
            },
        }
    }
}

/// The model of a parsed path command.
pub open spec fn parsed_model(p: Option<(String, DotCommand)>) -> Option<(Seq<char>, DotModel)> {
    match p {
        Some((path, op)) => Some((path@, op.model())),
        None => None,
    }
}

/// `ma_zscheme::parse_dot_command`: the result is the path grammar
/// `dot_command_parsed(command)`, which states what its source does.
#[verifier::external_body]
fn parse_dot(command: &str) -> (r: Option<(String, DotCommand)>)
    ensures
        parsed_model(r) == dot_command_parsed(command@),
{
    ma_zscheme::parse_dot_command(command).map(|(path, op)| {
        let op = match op {
            ma_zscheme::DotOp::Get => DotCommand::Get,
            ma_zscheme::DotOp::Set(v) => DotCommand::Store(v),
            ma_zscheme::DotOp::Delete => DotCommand::Delete,
            ma_zscheme::DotOp::Meta { verb, args } => DotCommand::Meta { verb, args },
        };
        (path, op)
    })
}

/// The plan for a path command given how it parsed: the path and operation,
/// or the error `bad path command: <command>`.
pub open spec fn dot_plan(command: Seq<char>, parsed: Option<(Seq<char>, DotModel)>) -> Result<
    (Seq<char>, DotModel),
    Seq<char>,
> {
    match parsed {
        Some(p) => Ok(p),
        None => Err("bad path command: "@ + command),
    }
}

/// The model of a planned path command.
pub open spec fn plan_model(r: Result<(String, DotCommand), SchemeError>) -> Result<
    (Seq<char>, DotModel),
    Seq<char>,
> {
    match r {
        Ok((path, op)) => Ok((path@, op.model())),
        Err(SchemeError::MaError(m)) => Err(m@),
        Err(_) => Err(Seq::empty()),
    }
}

/// The plan for the path command `command` given its parse `parsed`.
pub fn plan_dot_command(command: &str, parsed: Option<(String, DotCommand)>) -> (r: Result<
    (String, DotCommand),
    SchemeError,
>)
    ensures
        r is Err ==> r matches Err(SchemeError::MaError(_)),
        plan_model(r) == dot_plan(command@, parsed_model(parsed)),
{
    match parsed {
        Some(p) => Ok(p),
        None => Err(SchemeError::MaError(String::from_str("bad path command: ").concat(command))),
    }
}

/// Parse the path command `command` into its registry path and operation.
pub fn dot_command(command: &str) -> (r: Result<(String, DotCommand), SchemeError>)
    ensures
        r is Err ==> r matches Err(SchemeError::MaError(_)),
        plan_model(r) == dot_plan(command@, dot_command_parsed(command@)),
{
    let parsed = parse_dot(command);
    plan_dot_command(command, parsed)
}

// ── Awaited replies ────────────────────────────────────────────────────────

/// What an actor call evaluates to, given what arrived on its reply channel
/// (`None` when the channel was dropped without a reply).
pub open spec fn call_outcome(received: Option<Result<ValModel, Seq<char>>>) -> Result<
    ValModel,
    Seq<char>,
> {
    match received {
        Some(Ok(v)) => Ok(v),
        Some(Err(e)) => Err(e),
        None => Err("reply channel cancelled"@),
    }
}

/// The model of an actor-call result.
pub open spec fn call_model(r: Result<Val, SchemeError>) -> Result<ValModel, Seq<char>> {
    match r {
        Ok(v) => Ok(v.model()),
        Err(SchemeError::MaError(m)) => Err(m@),
        Err(_) => Err(Seq::empty()),
    }
}

/// The result of an actor call given what arrived on its reply channel.
/// Failures are reported as actor-network errors.
pub fn call_result(received: Option<Result<Val, String>>) -> (r: Result<Val, SchemeError>)
    ensures
        r is Err ==> r matches Err(SchemeError::MaError(_)),
        call_model(r) == call_outcome(
            match received {
                Some(x) => Some(outcome_model(x)),
                None => None,
            },
        ),
{
    match received {
        Some(Ok(v)) => Ok(v),
        Some(Err(e)) => Err(SchemeError::MaError(e)),
        None => Err(SchemeError::MaError(String::from_str("reply channel cancelled"))),
    }
}

// ── Randomness ─────────────────────────────────────────────────────────────

/// `getrandom::fill`: fills `buf` from the system's random source. The
/// contract claims only that the length is kept and that an empty buffer
/// always succeeds; the bytes are left unsaid.
#[verifier::external_body]
fn fill_random(buf: &mut Vec<u8>) -> (r: Result<(), String>)
    ensures
        final(buf)@.len() == old(buf)@.len(),
        old(buf)@.len() == 0 ==> r is Ok,
{
    getrandom::fill(buf).map_err(|e| e.to_string())
}

/// `len` bytes from the system's secure random source.
pub fn random_bytes(len: usize) -> (r: Result<Vec<u8>, String>)
    ensures
        r matches Ok(b) ==> b@.len() == len,
        len == 0 ==> r is Ok,
{
    let mut bytes: Vec<u8> = Vec::new();
    let mut i: usize = 0;
    while i < len
        invariant
            i <= len,
            bytes@.len() == i,
        decreases len - i,
    {
        bytes.push(0u8);
        i = i + 1;
    }
    fill_random(&mut bytes)?;
    Ok(bytes)
}

} // verus!
