use vstd::prelude::*;

use crate::platform::{ExecutionContext, ExecutionContextV};
use crate::strutil::{chars_to_string, copy_slice, lemma_skip_succ, lemma_span_until_of,
    span_until, str_to_chars};

verus! {

/// Mathematical image of an `InquiryError`.
pub enum InquiryErrorV {
    MissingArgument(Seq<char>),
}

/// Failure of the action mini-language: a malformed inquiry, such as one
/// with an empty name.
#[derive(Clone, Debug)]
pub enum InquiryError {
    MissingArgument(String),
}

impl View for InquiryError {
    type V = InquiryErrorV;

    open spec fn view(&self) -> InquiryErrorV {
        match self {
            InquiryError::MissingArgument(s) => InquiryErrorV::MissingArgument(s@),
        }
    }
}

/// The wording of an inquiry error, as shown to the caller.
pub open spec fn spec_inquiry_error_message(e: InquiryErrorV) -> Seq<char> {
    match e {
        InquiryErrorV::MissingArgument(w) => "missing argument "@ + w,
    }
}

impl InquiryError {
    /// Renders the error for a user-visible reply.
    pub fn message(&self) -> (r: String)
        ensures
            r@ == spec_inquiry_error_message(self@),
    {
        match self {
            InquiryError::MissingArgument(w) => {
                let mut s = String::from_str("missing argument ");
                s.append(w.as_str());
                s
            },
        }
    }
}

/// The segments of `s` between occurrences of `c`; always at least one
/// segment, and one more segment per occurrence of `c`.
pub open spec fn split_at_char(s: Seq<char>, c: char) -> Seq<Seq<char>>
    decreases s.len(),
{
    let k = span_until(s, c);
    if k >= s.len() {
        seq![s]
    } else {
        seq![s.take(k as int)] + split_at_char(s.skip(k as int + 1), c)
    }
}

/// A registry of named inquiries. The scanner never changes when a new
/// inquiry is registered: a registry decides every substitution through
/// `respond`, and `spec_response` is its mathematical image.
pub trait InquiryHandler {
    /// The substitution for a name applied to arguments, `None` when the
    /// name is not recognized.
    spec fn spec_response(
        &self,
        name: Seq<char>,
        args: Seq<Seq<char>>,
        ctx: ExecutionContextV,
    ) -> Option<Seq<char>>;

    /// Computes the substitution for one inquiry.
    fn respond(&self, name: &str, args: &Vec<String>, ctx: &ExecutionContext) -> (r: Option<
        String,
    >)
        ensures
            r.deep_view() == self.spec_response(name@, args.deep_view(), ctx@),
    ;
}

/// What one inquiry (the text between `$` and the next space) expands to:
/// its name is the part before the first colon, the arguments follow,
/// an empty name is malformed, and an unrecognized name expands to nothing.
pub open spec fn spec_substitution<H: InquiryHandler + ?Sized>(
    h: &H,
    inq: Seq<char>,
    ctx: ExecutionContextV,
) -> Result<Seq<char>, InquiryErrorV> {
    let segs = split_at_char(inq, ':');
    let name = segs[0];
    let args = segs.drop_first();
    if name.len() == 0 {
        Err(InquiryErrorV::MissingArgument("inquiry"@))
    } else {
        match h.spec_response(name, args, ctx) {
            Some(s) => Ok(s),
            None => Ok(Seq::empty()),
        }
    }
}

/// The expansion of an action string: characters are copied verbatim,
/// `$` starts an inquiry that runs to the next space or the end, and a
/// single space always follows the substitution, as a deliberate
/// normalization; the space that ended the scan is no part of the
/// inquiry and is still copied, so a separator in the template shows up
/// twice.
pub open spec fn spec_interpret<H: InquiryHandler + ?Sized>(
    h: &H,
    action: Seq<char>,
    ctx: ExecutionContextV,
) -> Result<Seq<char>, InquiryErrorV>
    decreases action.len(),
{
    if action.len() == 0 {
        Ok(Seq::empty())
    } else if action[0] == '$' {
        let rest = action.drop_first();
        let k = span_until(rest, ' ');
        let inq = rest.take(k as int);
        let after = if k >= rest.len() {
            Seq::<char>::empty()
        } else {
            rest.skip(k as int)
        };
        match spec_substitution(h, inq, ctx) {
            Err(e) => Err(e),
            Ok(sub) => match spec_interpret(h, after, ctx) {
                Err(e) => Err(e),
                Ok(t) => Ok(sub + seq![' '] + t),
            },
        }
    } else {
        match spec_interpret(h, action.drop_first(), ctx) {
            Err(e) => Err(e),
            Ok(t) => Ok(seq![action[0]] + t),
        }
    }
}

/// Splits a character sequence at every colon, keeping empty segments.
fn split_colon(s: &Vec<char>) -> (r: Vec<String>)
    ensures
        r.deep_view() == split_at_char(s@, ':'),
    decreases s@.len(),
{
    let n = s.len();
    let mut k: usize = 0;
    while k < n && s[k] != ':'
        invariant
            n == s@.len(),
            k <= n,
            forall|m: int| 0 <= m < k ==> s@[m] != ':',
        decreases n - k,
    {
        k += 1;
    }
    proof {
        lemma_span_until_of(s@, ':', k as int);
    }
    let head = chars_to_string(&copy_slice(s, 0, k));
    if k == n {
        let mut r: Vec<String> = Vec::new();
        proof {
            assert(head@ =~= s@);
        }
        r.push(head);
        proof {
            assert(r.deep_view() =~= split_at_char(s@, ':'));
        }
        r
    } else {
        let tail = copy_slice(s, k + 1, n);
        let mut r = split_colon(&tail);
        proof {
            assert(tail@ =~= s@.skip(k as int + 1));
        }
        r.insert(0, head);
        proof {
            assert(r.deep_view() =~= split_at_char(s@, ':'));
        }
        r
    }
}

/// Relates a full expansion to an already-emitted prefix and the
/// expansion of the unscanned suffix.
pub open spec fn interpret_continues(
    full: Result<Seq<char>, InquiryErrorV>,
    done: Seq<char>,
    rest: Result<Seq<char>, InquiryErrorV>,
) -> bool {
    match rest {
        Ok(t) => full == Ok::<Seq<char>, InquiryErrorV>(done + t),
        Err(e) => full == Err::<Seq<char>, InquiryErrorV>(e),
    }
}

/// Expands a stored command's action string. Returns `Ok(None)` when the
/// expansion is empty, and the expanded text otherwise; the only error is
/// a malformed inquiry. The result is a function of the action, the
/// registry and the context alone, so two equal calls expand alike.
pub fn interpret<H: InquiryHandler>(h: &H, action: &str, ctx: &ExecutionContext) -> (r: Result<
    Option<String>,
    InquiryError,
>)
    ensures
        match spec_interpret(h, action@, ctx@) {
            Ok(out) => {
                if out.len() == 0 {
                    r == Ok::<Option<String>, InquiryError>(None)
                } else {
                    r matches Ok(rr) && rr matches Some(s) && s@ == out
                }
            },
            Err(e) => r matches Err(err) && err@ == e,
        },
{
    let chars = str_to_chars(action);
    let n = chars.len();
    let mut out: Vec<char> = Vec::new();
    let mut i: usize = 0;
    proof {
        assert(chars@.skip(0) =~= chars@);
        match spec_interpret(h, action@, ctx@) {
            Ok(t) => {
                assert(out@ + t =~= t);
            },
            Err(_) => {},
        }
    }
    while i < n
        invariant
            n == chars@.len(),
            chars@ == action@,
            i <= n,
            interpret_continues(
                spec_interpret(h, action@, ctx@),
                out@,
                spec_interpret(h, chars@.skip(i as int), ctx@),
            ),
        decreases n - i,
    {
        let ghost pre = chars@.skip(i as int);
        proof {
            lemma_skip_succ(chars@, i as int);
        }
        let c = chars[i];
        if c != '$' {
            let ghost out_old = out@;
            out.push(c);
            i += 1;
            proof {
                assert(pre.drop_first() == chars@.skip(i as int));
                match spec_interpret(h, chars@.skip(i as int), ctx@) {
                    Ok(t) => {
                        assert(spec_interpret(h, pre, ctx@) == Ok::<_, InquiryErrorV>(
                            seq![c] + t,
                        ));
                        assert(out@ + t =~= out_old + (seq![c] + t));
                    },
                    Err(e) => {
                        assert(spec_interpret(h, pre, ctx@) == Err::<Seq<char>, _>(e));
                    },
                }
            }
        } else {
            let ghost i0 = i as int;
            // scan the inquiry: everything up to the next space or the end
            let mut j = i + 1;
            while j < n && chars[j] != ' '
                invariant
                    n == chars@.len(),
                    i + 1 <= j <= n,
                    forall|m: int| i + 1 <= m < j ==> chars@[m] != ' ',
                decreases n - j,
            {
                j += 1;
            }
            let ghost rest = chars@.skip(i0 + 1);
            let ghost k = j - i0 - 1;
            proof {
                assert(forall|m: int|
                    0 <= m < k ==> rest[m] == chars@[m + i0 + 1] && rest[m] != ' ');
                if j < n {
                    assert(rest[k] == chars@[j as int]);
                }
                lemma_span_until_of(rest, ' ', k);
            }
            let inq = copy_slice(&chars, i + 1, j);
            proof {
                assert(inq@ =~= rest.take(k));
            }
            let segs = split_colon(&inq);
            proof {
                assert(split_at_char(inq@, ':').len() >= 1);
                assert(segs@.len() == segs.deep_view().len());
            }
            let name = &segs[0];
            proof {
                assert(name@ == split_at_char(inq@, ':')[0]);
            }
            if name.unicode_len() == 0 {
                proof {
                    assert(spec_substitution(h, inq@, ctx@) == Err::<Seq<char>, _>(
                        InquiryErrorV::MissingArgument("inquiry"@),
                    ));
                    assert(spec_interpret(h, chars@.skip(i0), ctx@) == Err::<Seq<char>, _>(
                        InquiryErrorV::MissingArgument("inquiry"@),
                    ));
                }
                return Err(InquiryError::MissingArgument(String::from_str("inquiry")));
            }
            let mut args: Vec<String> = Vec::new();
            let seg_count = segs.len();
            for a in 1..seg_count
                invariant
                    seg_count == segs@.len(),
                    args@.len() == a - 1,
                    forall|m: int| 0 <= m < a - 1 ==> args@[m]@ == segs@[m + 1]@,
            {
                args.push(segs[a].clone());
            }
            proof {
                assert(args.deep_view() =~= segs.deep_view().drop_first());
            }
            let sub = h.respond(name.as_str(), &args, ctx);
            let ghost sub_spec = match spec_substitution(h, inq@, ctx@) {
                Ok(s) => s,
                Err(_) => Seq::empty(),
            };
            proof {
                assert(spec_substitution(h, inq@, ctx@) == Ok::<Seq<char>, InquiryErrorV>(
                    sub_spec,
                ));
            }
            let ghost out_before = out@;
            match sub {
                Some(s) => {
                    let mut sv = str_to_chars(s.as_str());
                    out.append(&mut sv);
                },
                None => {},
            }
            out.push(' ');
            proof {
                assert(out@ =~= out_before + sub_spec + seq![' ']);
            }
            // the space that ended the scan stays in the input
            i = j;
            proof {
                let after = if k >= rest.len() {
                    Seq::<char>::empty()
                } else {
                    rest.skip(k)
                };
                if j < n {
                    assert(after =~= chars@.skip(i as int));
                } else {
                    assert(k >= rest.len());
                    assert(chars@.skip(i as int) =~= Seq::<char>::empty());
                    assert(after == chars@.skip(i as int));
                }
                match spec_interpret(h, chars@.skip(i as int), ctx@) {
                    Ok(t) => {
                        assert(spec_interpret(h, chars@.skip(i0), ctx@) == Ok::<
                            Seq<char>,
                            InquiryErrorV,
                        >(sub_spec + seq![' '] + t));
                        assert(out_before + (sub_spec + seq![' '] + t) =~= out@ + t);
                    },
                    Err(e) => {
                        assert(spec_interpret(h, chars@.skip(i0), ctx@) == Err::<Seq<char>, _>(
                            e,
                        ));
                    },
                }
            }
        }
    }
    proof {
        assert(chars@.skip(n as int) =~= Seq::<char>::empty());
        match spec_interpret(h, action@, ctx@) {
            Ok(t) => {
                assert(t =~= out@ + Seq::<char>::empty());
                assert(t == out@);
            },
            Err(_) => {},
        }
    }
    if out.len() == 0 {
        Ok(None)
    } else {
        Ok(Some(chars_to_string(&out)))
    }
}

/// An argument as the argument-list rendering shows it: quotes and
/// backslashes get a leading backslash.
pub open spec fn spec_escape_arg(a: Seq<char>) -> Seq<char>
    decreases a.len(),
{
    if a.len() == 0 {
        Seq::empty()
    } else {
        let head = if a[0] == '"' || a[0] == '\\' {
            seq!['\\', a[0]]
        } else {
            seq![a[0]]
        };
        head + spec_escape_arg(a.drop_first())
    }
}

/// The arguments each quoted and escaped, separated by a comma and a space.
pub open spec fn spec_args_list(args: Seq<Seq<char>>) -> Seq<char>
    decreases args.len(),
{
    if args.len() == 0 {
        Seq::empty()
    } else if args.len() == 1 {
        seq!['"'] + spec_escape_arg(args[0]) + seq!['"']
    } else {
        seq!['"'] + spec_escape_arg(args[0]) + seq!['"', ',', ' '] + spec_args_list(
            args.drop_first(),
        )
    }
}

/// An argument list rendered inside square brackets.
pub open spec fn spec_render_args(args: Seq<Seq<char>>) -> Seq<char> {
    seq!['['] + spec_args_list(args) + seq![']']
}

/// Escapes one argument for the argument-list rendering.
fn escape_arg(a: &String) -> (r: String)
    ensures
        r@ == spec_escape_arg(a@),
{
    let chars = str_to_chars(a.as_str());
    let n = chars.len();
    let mut out: Vec<char> = Vec::new();
    let mut i: usize = 0;
    proof {
        assert(chars@.skip(0) =~= a@);
        assert(out@ + spec_escape_arg(a@.skip(0)) =~= spec_escape_arg(a@));
    }
    while i < n
        invariant
            n == chars@.len(),
            chars@ == a@,
            i <= n,
            out@ + spec_escape_arg(a@.skip(i as int)) == spec_escape_arg(a@),
        decreases n - i,
    {
        let ghost pre = a@.skip(i as int);
        proof {
            lemma_skip_succ(a@, i as int);
        }
        let ghost out_old = out@;
        let c = chars[i];
        if c == '"' || c == '\\' {
            out.push('\\');
        }
        out.push(c);
        i += 1;
        proof {
            assert(out@ + spec_escape_arg(a@.skip(i as int)) =~= out_old + spec_escape_arg(pre));
        }
    }
    proof {
        assert(a@.skip(n as int) =~= Seq::<char>::empty());
        assert(out@ + spec_escape_arg(a@.skip(n as int)) =~= out@);
    }
    chars_to_string(&out)
}

/// Renders the arguments from position `from` on, as `spec_args_list` says.
fn args_list(args: &Vec<String>, from: usize) -> (r: String)
    requires
        from <= args@.len(),
    ensures
        r@ == spec_args_list(args.deep_view().skip(from as int)),
    decreases args@.len() - from,
{
    let ghost dv = args.deep_view();
    proof {
        reveal_strlit("\"");
        reveal_strlit("\", ");
    }
    if from == args.len() {
        proof {
            assert(dv.skip(from as int) =~= Seq::<Seq<char>>::empty());
        }
        String::new()
    } else {
        proof {
            lemma_skip_succ(dv, from as int);
        }
        let mut s = String::from_str("\"");
        let escaped = escape_arg(&args[from]);
        s.append(escaped.as_str());
        if from + 1 == args.len() {
            s.append("\"");
            proof {
                assert(dv.skip(from as int).len() == 1);
                assert(s@ =~= seq!['"'] + spec_escape_arg(dv.skip(from as int)[0]) + seq!['"']);
            }
        } else {
            s.append("\", ");
            let rest = args_list(args, from + 1);
            s.append(rest.as_str());
            proof {
                assert(s@ =~= seq!['"'] + spec_escape_arg(dv.skip(from as int)[0])
                    + seq!['"', ',', ' '] + spec_args_list(dv.skip(from as int + 1)));
            }
        }
        s
    }
}

/// Renders an argument list inside square brackets.
pub fn render_args(args: &Vec<String>) -> (r: String)
    ensures
        r@ == spec_render_args(args.deep_view()),
{
    proof {
        reveal_strlit("[");
        reveal_strlit("]");
        assert(args.deep_view().skip(0) =~= args.deep_view());
    }
    let mut s = String::from_str("[");
    let body = args_list(args, 0);
    s.append(body.as_str());
    s.append("]");
    proof {
        assert(s@ =~= spec_render_args(args.deep_view()));
    }
    s
}

/// The inquiries that the engine registers at startup. `DO_SOMETHING`
/// echoes its arguments; every other name is unrecognized.
pub struct DefaultInquiries;

impl InquiryHandler for DefaultInquiries {
    open spec fn spec_response(
        &self,
        name: Seq<char>,
        args: Seq<Seq<char>>,
        ctx: ExecutionContextV,
    ) -> Option<Seq<char>> {
        if name == "DO_SOMETHING"@ {
            Some("did something with "@ + spec_render_args(args))
        } else {
            None
        }
    }

    fn respond(&self, name: &str, args: &Vec<String>, ctx: &ExecutionContext) -> (r: Option<
        String,
    >)
        ensures
            r.deep_view() == self.spec_response(name@, args.deep_view(), ctx@),
    {
        let key = String::from_str("DO_SOMETHING");
        let name_string = String::from_str(name);
        if name_string.eq(&key) {
            let mut s = String::from_str("did something with ");
            let rendered = render_args(args);
            s.append(rendered.as_str());
            Some(s)
        } else {
            None
        }
    }
}

/// Law: interpretation is deterministic. The expansion is a function of
/// the action string, the registry and the context alone, so two calls
/// on equal inputs expand byte for byte alike, trailing inquiry spaces
/// included.
pub proof fn lemma_interpret_deterministic<H: InquiryHandler>(
    h: &H,
    a1: Seq<char>,
    a2: Seq<char>,
    c1: ExecutionContextV,
    c2: ExecutionContextV,
)
    requires
        a1 == a2,
        c1 == c2,
    ensures
        spec_interpret(h, a1, c1) == spec_interpret(h, a2, c2),
{
}

} // verus!
