//! The command-line option parser: named options are matched through the
//! name trie, so any unambiguous prefix of an option name (or of one of
//! its aliases) selects it; positional arguments fall through to extra
//! handlers.
//!
//! Handlers are identified by caller-chosen numbers. `parse_mut` turns an
//! argument list into the exact sequence of handler invocations, and
//! `parse` applies that sequence to a value through the `OptTarget`
//! trait.

use crate::trie::NameTrie;
use vstd::prelude::*;

verus! {

/// What a named option needs: how many arguments follow it, and which
/// handler receives them.
#[derive(Clone, Copy, Debug, PartialEq, Eq)]
pub struct NamedSpec {
    pub argct: usize,
    pub handler: usize,
}

/// A handler for arguments that match no named option: a soft handler
/// takes one such argument; a hard handler takes all remaining arguments
/// at once.
#[derive(Clone, Copy, Debug, PartialEq, Eq)]
pub enum ExtraHandler {
    Soft(usize),
    Hard(usize),
}

/// The option table: named options in the trie, extra handlers in
/// registration order.
pub struct OptParser {
    pub named: NameTrie<NamedSpec>,
    pub extra: Vec<ExtraHandler>,
}

/// Registration interface of the option table, as handed to the code that
/// declares each operation's options.
pub struct OptParserView(pub OptParser);

/// The name under an option-looking argument: two leading dashes or one
/// leading dash removed, or nothing for a plain argument.
pub open spec fn spec_name_from_arg(s: Seq<char>) -> Option<Seq<char>> {
    if s.len() >= 2 && s[0] == '-' && s[1] == '-' {
        Some(s.skip(2))
    } else if s.len() >= 1 && s[0] == '-' {
        Some(s.skip(1))
    } else {
        None
    }
}

/// Strip the option prefix from an argument, if it has one.
fn name_from_arg(name: &str) -> (r: Option<&str>)
    ensures
        match r {
            Some(n) => spec_name_from_arg(name@) == Some(n@),
            None => spec_name_from_arg(name@) is None,
        },
{
    let len = name.unicode_len();
    if len >= 2 && name.get_char(0) == '-' && name.get_char(1) == '-' {
        let r = name.substring_char(2, len);
        proof {
            assert(r@ =~= name@.skip(2));
        }
        Some(r)
    } else if len >= 1 && name.get_char(0) == '-' {
        let r = name.substring_char(1, len);
        proof {
            assert(r@ =~= name@.skip(1));
        }
        Some(r)
    } else {
        None
    }
}

impl OptParser {
    /// No name is bound yet and there are no extra handlers.
    pub fn new() -> (r: OptParser)
        ensures
            r.named.wf(),
            forall|name: Seq<char>| r.named.lookup(name) is None,
            r.extra@ == Seq::<ExtraHandler>::empty(),
    {
        OptParser { named: NameTrie::new(), extra: Vec::new() }
    }

    /// The registration interface onto this table.
    pub fn view(self) -> (r: OptParserView)
        ensures
            r.0 == self,
    {
        OptParserView(self)
    }
}

impl OptParserView {
    /// Register `handler` for every alias, each taking `argct` following
    /// arguments. The aliases must be distinct and still free; a
    /// collision is a programming error in the option declarations.
    pub fn match_n(&mut self, aliases: &[&str], argct: usize, handler: usize)
        requires
            old(self).0.named.wf(),
            forall|i: int|
                0 <= i < aliases@.len() ==> old(self).0.named.lookup(
                    (#[trigger] aliases@[i])@,
                ) is None,
            forall|i: int, j: int|
                0 <= i < j < aliases@.len() ==> (#[trigger] aliases@[i])@ != (
                #[trigger] aliases@[j])@,
        ensures
            final(self).0.named.wf(),
            final(self).0.extra == old(self).0.extra,
            forall|i: int|
                0 <= i < aliases@.len() ==> final(self).0.named.lookup((#[trigger] aliases@[i])@)
                    == Some(NamedSpec { argct, handler }),
            forall|k: Seq<char>|
                (forall|i: int| 0 <= i < aliases@.len() ==> (#[trigger] aliases@[i])@ != k)
                    ==> #[trigger] final(self).0.named.lookup(k) == old(self).0.named.lookup(k),
    {
        let mut i: usize = 0;
        while i < aliases.len()
            invariant
                i <= aliases@.len(),
                self.0.named.wf(),
                self.0.extra == old(self).0.extra,
                forall|j: int, k: int|
                    0 <= j < k < aliases@.len() ==> (#[trigger] aliases@[j])@ != (
                    #[trigger] aliases@[k])@,
                forall|j: int|
                    0 <= j < i ==> self.0.named.lookup((#[trigger] aliases@[j])@) == Some(
                        NamedSpec { argct, handler },
                    ),
                forall|j: int|
                    i <= j < aliases@.len() ==> self.0.named.lookup(
                        (#[trigger] aliases@[j])@,
                    ) is None,
                forall|k: Seq<char>|
                    (forall|j: int| 0 <= j < aliases@.len() ==> (#[trigger] aliases@[j])@ != k)
                        ==> #[trigger] self.0.named.lookup(k) == old(self).0.named.lookup(k),
            decreases aliases@.len() - i,
        {
            self.0.named.insert(aliases[i], NamedSpec { argct, handler });
            i += 1;
        }
    }

    /// Register `handler` for aliases that take one following argument.
    pub fn match_single(&mut self, aliases: &[&str], handler: usize)
        requires
            old(self).0.named.wf(),
            forall|i: int|
                0 <= i < aliases@.len() ==> old(self).0.named.lookup(
                    (#[trigger] aliases@[i])@,
                ) is None,
            forall|i: int, j: int|
                0 <= i < j < aliases@.len() ==> (#[trigger] aliases@[i])@ != (
                #[trigger] aliases@[j])@,
        ensures
            final(self).0.named.wf(),
            final(self).0.extra == old(self).0.extra,
            forall|i: int|
                0 <= i < aliases@.len() ==> final(self).0.named.lookup((#[trigger] aliases@[i])@)
                    == Some(NamedSpec { argct: 1, handler }),
            forall|k: Seq<char>|
                (forall|i: int| 0 <= i < aliases@.len() ==> (#[trigger] aliases@[i])@ != k)
                    ==> #[trigger] final(self).0.named.lookup(k) == old(self).0.named.lookup(k),
    {
        self.match_n(aliases, 1, handler)
    }

    /// Register `handler` for aliases that take no following argument.
    pub fn match_zero(&mut self, aliases: &[&str], handler: usize)
        requires
            old(self).0.named.wf(),
            forall|i: int|
                0 <= i < aliases@.len() ==> old(self).0.named.lookup(
                    (#[trigger] aliases@[i])@,
                ) is None,
            forall|i: int, j: int|
                0 <= i < j < aliases@.len() ==> (#[trigger] aliases@[i])@ != (
                #[trigger] aliases@[j])@,
        ensures
            final(self).0.named.wf(),
            final(self).0.extra == old(self).0.extra,
            forall|i: int|
                0 <= i < aliases@.len() ==> final(self).0.named.lookup((#[trigger] aliases@[i])@)
                    == Some(NamedSpec { argct: 0, handler }),
            forall|k: Seq<char>|
                (forall|i: int| 0 <= i < aliases@.len() ==> (#[trigger] aliases@[i])@ != k)
                    ==> #[trigger] final(self).0.named.lookup(k) == old(self).0.named.lookup(k),
    {
        self.match_n(aliases, 0, handler)
    }

    /// Register a handler for single unmatched arguments.
    pub fn match_extra_soft(&mut self, handler: usize)
        ensures
            final(self).0.named == old(self).0.named,
            final(self).0.extra@ == old(self).0.extra@.push(ExtraHandler::Soft(handler)),
    {
        self.0.extra.push(ExtraHandler::Soft(handler));
    }

    /// Register a handler that takes all remaining unmatched arguments.
    pub fn match_extra_hard(&mut self, handler: usize)
        ensures
            final(self).0.named == old(self).0.named,
            final(self).0.extra@ == old(self).0.extra@.push(ExtraHandler::Hard(handler)),
    {
        self.0.extra.push(ExtraHandler::Hard(handler));
    }
}



/// The table entries matching a name: the exact binding if the name is
/// bound itself, else every binding whose name extends it.
pub open spec fn spec_matches(p: OptParser, name: Seq<char>) -> Seq<NamedSpec> {
    match p.named.descend(name) {
        None => Seq::empty(),
        Some(st) => if st.t is Some {
            seq![st.t->0]
        } else {
            st.values()
        },
    }
}

/// A value that option handlers build up. `hist` records every handler
/// invocation applied so far; `soft_accepts` is the target type's fixed
/// decision whether a soft extra handler takes a given argument, which
/// `accept_extra` must implement.
pub trait OptTarget {
    /// Every handler invocation applied so far, in order. The body here
    /// is only a default so that impls outside the verified world
    /// compile; a verified impl overrides it with its real record.
    open spec fn hist(&self) -> Seq<(usize, Seq<Seq<char>>)> {
        Seq::empty()
    }

    /// The target type's fixed decision whether soft extra handler
    /// `handler` takes `arg`.
    open spec fn soft_accepts(handler: usize, arg: Seq<char>) -> bool {
        true
    }

    /// Run a named or hard handler on its arguments.
    fn apply(&mut self, handler: usize, args: Vec<String>)
        ensures
            final(self).hist() == old(self).hist().push((handler, args.deep_view())),
    ;

    /// Offer one unmatched argument to a soft handler; on acceptance the
    /// handler consumes it, on decline the record is untouched.
    fn accept_extra(&mut self, handler: usize, arg: &String) -> (r: bool)
        ensures
            r == Self::soft_accepts(handler, arg@),
            r ==> final(self).hist() == old(self).hist().push((handler, seq![arg@])),
            !r ==> final(self).hist() == old(self).hist(),
    ;
}

/// The first extra handler that takes `arg`, walking the handlers in
/// registration order: a soft handler only if it accepts, a hard handler
/// always.
pub open spec fn spec_first_extra<P: OptTarget>(extra: Seq<ExtraHandler>, arg: Seq<char>) -> Option<
    ExtraHandler,
>
    decreases extra.len(),
{
    if extra.len() == 0 {
        None
    } else {
        match extra[0] {
            ExtraHandler::Soft(h) => if P::soft_accepts(h, arg) {
                Some(ExtraHandler::Soft(h))
            } else {
                spec_first_extra::<P>(extra.drop_first(), arg)
            },
            ExtraHandler::Hard(h) => Some(ExtraHandler::Hard(h)),
        }
    }
}

/// What parsing does, argument by argument, from position `i`, against a
/// target of type `P`. `refuse` records that a `--` separator has been
/// seen, after which nothing is treated as a named option any more.
///
/// The result is the sequence of handler invocations, or nothing where
/// the arguments cannot be parsed: an ambiguous or unknown option name,
/// too few arguments after a named option, or an unmatched argument that
/// no extra handler takes.
pub open spec fn spec_parse<P: OptTarget>(
    p: OptParser,
    args: Seq<Seq<char>>,
    i: int,
    refuse: bool,
) -> Option<Seq<(usize, Seq<Seq<char>>)>>
    decreases args.len() - i,
{
    if i < 0 || i >= args.len() {
        Some(Seq::empty())
    } else if !refuse && args[i] == "--"@ {
        spec_parse::<P>(p, args, i + 1, true)
    } else if !refuse && spec_name_from_arg(args[i]) is Some {
        let ms = spec_matches(p, spec_name_from_arg(args[i])->0);
        if ms.len() == 1 {
            let end = i + 1 + ms[0].argct;
            if end <= args.len() {
                match spec_parse::<P>(p, args, end, refuse) {
                    None => None,
                    Some(rest) => Some(seq![(ms[0].handler, args.subrange(i + 1, end))] + rest),
                }
            } else {
                None
            }
        } else {
            None
        }
    } else {
        match spec_first_extra::<P>(p.extra@, args[i]) {
            None => None,
            Some(ExtraHandler::Soft(h)) => match spec_parse::<P>(p, args, i + 1, refuse) {
                None => None,
                Some(rest) => Some(seq![(h, seq![args[i]])] + rest),
            },
            Some(ExtraHandler::Hard(h)) => Some(
                seq![(h, args.subrange(i, args.len() as int))],
            ),
        }
    }
}

/// Whether this argument is the `--` separator.
fn is_double_dash(s: &String) -> (r: bool)
    ensures
        r == (s@ == "--"@),
{
    proof {
        reveal_strlit("--");
    }
    let st = s.as_str();
    let len = st.unicode_len();
    if len == 2 && st.get_char(0) == '-' && st.get_char(1) == '-' {
        proof {
            assert(s@ =~= "--"@);
        }
        true
    } else {
        proof {
            if s@ == "--"@ {
                assert(s@.len() == 2 && s@[0] == '-' && s@[1] == '-');
            }
        }
        false
    }
}

/// Clone the arguments from `start` (inclusive) to `end` (exclusive).
fn clone_range(args: &Vec<String>, start: usize, end: usize) -> (r: Vec<String>)
    requires
        start <= end <= args@.len(),
    ensures
        r@ == args@.subrange(start as int, end as int),
        r.deep_view() == args.deep_view().subrange(start as int, end as int),
{
    let mut r: Vec<String> = Vec::new();
    let mut j = start;
    while j < end
        invariant
            start <= j <= end <= args@.len(),
            r@ == args@.subrange(start as int, j as int),
        decreases end - j,
    {
        r.push(args[j].clone());
        proof {
            assert(r@ =~= args@.subrange(start as int, j as int + 1));
        }
        j += 1;
    }
    proof {
        assert forall|k: int|
            0 <= k < r.deep_view().len() implies r.deep_view()[k] == args.deep_view().subrange(
            start as int,
            end as int,
        )[k] by {
            assert(r@[k] == args@[start + k]);
            assert(args.deep_view()[start + k] == args@[start + k].deep_view());
        }
        assert(r.deep_view() =~= args.deep_view().subrange(start as int, end as int));
    }
    r
}

impl OptParser {
    /// Parse the arguments against this table, running each handler on
    /// `p` as it is matched: named options through the trie (any
    /// unambiguous prefix), `--` ending option matching, everything else
    /// offered to the extra handlers in registration order. The result is
    /// exactly the invocation sequence `spec_parse` defines; an argument
    /// list the table cannot parse is a usage error the caller must rule
    /// out or report, excluded here rather than handled.
    pub fn parse_mut<P: OptTarget>(&self, args: &Vec<String>, p: &mut P)
        requires
            spec_parse::<P>(*self, args.deep_view(), 0, false) is Some,
        ensures
            final(p).hist() == old(p).hist() + spec_parse::<P>(
                *self,
                args.deep_view(),
                0,
                false,
            )->0,
    {
        let ghost av = args.deep_view();
        let ghost plan = spec_parse::<P>(*self, av, 0, false)->0;
        proof {
            assert(av.len() == args@.len());
        }
        let mut next_index: usize = 0;
        let mut refuse_opt = false;
        while next_index < args.len()
            invariant
                next_index <= args@.len(),
                av == args.deep_view(),
                av.len() == args@.len(),
                plan == spec_parse::<P>(*self, av, 0, false)->0,
                spec_parse::<P>(*self, av, next_index as int, refuse_opt) is Some,
                ({
                    let rem = spec_parse::<P>(*self, av, next_index as int, refuse_opt)->0;
                    &&& rem.len() <= plan.len()
                    &&& p.hist() == old(p).hist() + plan.take(plan.len() - rem.len())
                    &&& forall|k: int|
                        0 <= k < rem.len() ==> #[trigger] rem[k] == plan[plan.len() - rem.len()
                            + k]
                }),
            decreases args@.len() - next_index,
        {
            let ghost rem = spec_parse::<P>(*self, av, next_index as int, refuse_opt)->0;
            let ghost done = plan.len() - rem.len();
            proof {
                assert(av[next_index as int] == args@[next_index as int]@);
            }
            if !refuse_opt && is_double_dash(&args[next_index]) {
                refuse_opt = true;
                next_index += 1;
                continue ;
            }
            let mut handled = false;
            if !refuse_opt {
                if let Some(name) = name_from_arg(args[next_index].as_str()) {
                    let ms = self.named.get(name);
                    proof {
                        assert(ms@ == spec_matches(
                            *self,
                            spec_name_from_arg(av[next_index as int])->0,
                        ));
                        assert(ms@.len() == 1);
                    }
                    let m = ms[0];
                    let start = next_index + 1;
                    let end = start + m.argct;
                    proof {
                        assert(end <= av.len());
                    }
                    let callargs = clone_range(args, start, end);
                    p.apply(m.handler, callargs);
                    proof {
                        let rem2 = spec_parse::<P>(*self, av, end as int, refuse_opt)->0;
                        assert(rem == seq![(m.handler, av.subrange(start as int, end as int))]
                            + rem2);
                        assert(rem[0] == plan[done]);
                        assert(plan.take(done + 1) =~= plan.take(done).push(plan[done]));
                        assert forall|k: int| 0 <= k < rem2.len() implies #[trigger] rem2[k]
                            == plan[done + 1 + k] by {
                            assert(rem2[k] == rem[k + 1]);
                        }
                    }
                    next_index = end;
                    handled = true;
                }
            }
            if !handled {
                proof {
                    if !refuse_opt {
                        assert(spec_name_from_arg(av[next_index as int]) is None);
                    }
                    assert(spec_first_extra::<P>(
                        self.extra@,
                        av[next_index as int],
                    ) is Some);
                }
                let ghost argv = av[next_index as int];
                let ghost fe = spec_first_extra::<P>(self.extra@, argv);
                let ghost hist0 = p.hist();
                proof {
                    assert(self.extra@.skip(0) =~= self.extra@);
                }
                let mut j: usize = 0;
                let mut accepted_soft = false;
                let mut took_hard = false;
                while !accepted_soft && !took_hard
                    invariant
                        j <= self.extra@.len(),
                        av == args.deep_view(),
                        next_index < args@.len(),
                        argv == av[next_index as int],
                        fe == spec_first_extra::<P>(self.extra@, argv),
                        fe is Some,
                        !accepted_soft && !took_hard ==> {
                            &&& spec_first_extra::<P>(self.extra@.skip(j as int), argv) == fe
                            &&& p.hist() == hist0
                        },
                        accepted_soft ==> (fe matches Some(ExtraHandler::Soft(h)) && p.hist()
                            == hist0.push((h, seq![argv]))),
                        took_hard ==> (fe matches Some(ExtraHandler::Hard(h)) && p.hist()
                            == hist0.push((h, av.subrange(next_index as int, av.len() as int)))),
                    decreases self.extra@.len() - j,
                {
                    let extra_count = self.extra.len();
                    proof {
                        assert(spec_first_extra::<P>(self.extra@.skip(j as int), argv) is Some);
                        assert(self.extra@.skip(j as int).len() > 0);
                        assert(j < extra_count);
                        assert(self.extra@.skip(j as int)[0] == self.extra@[j as int]);
                        assert(self.extra@.skip(j as int).drop_first() =~= self.extra@.skip(
                            j as int + 1,
                        ));
                    }
                    match self.extra[j] {
                        ExtraHandler::Soft(h) => {
                            if p.accept_extra(h, &args[next_index]) {
                                accepted_soft = true;
                            }
                        },
                        ExtraHandler::Hard(h) => {
                            let callargs = clone_range(args, next_index, args.len());
                            p.apply(h, callargs);
                            took_hard = true;
                        },
                    }
                    j += 1;
                }
                if took_hard {
                    proof {
                        let h = fe->0->Hard_0;
                        assert(rem == seq![(h, av.subrange(next_index as int, av.len() as int))]);
                        assert(rem[0] == plan[done]);
                        assert(plan.take(done + 1) =~= plan.take(done).push(plan[done]));
                        assert(spec_parse::<P>(*self, av, av.len() as int, refuse_opt) == Some(
                            Seq::<(usize, Seq<Seq<char>>)>::empty(),
                        ));
                    }
                    next_index = args.len();
                } else {
                    proof {
                        let h = fe->0->Soft_0;
                        let rem2 = spec_parse::<P>(*self, av, next_index as int + 1, refuse_opt)->0;
                        assert(rem == seq![(h, seq![argv])] + rem2);
                        assert(rem[0] == plan[done]);
                        assert(plan.take(done + 1) =~= plan.take(done).push(plan[done]));
                        assert forall|k: int| 0 <= k < rem2.len() implies #[trigger] rem2[k]
                            == plan[done + 1 + k] by {
                            assert(rem2[k] == rem[k + 1]);
                        }
                    }
                    next_index += 1;
                }
            }
        }
        proof {
            assert(spec_parse::<P>(*self, av, next_index as int, refuse_opt) == Some(
                Seq::<(usize, Seq<Seq<char>>)>::empty(),
            ));
            assert(plan.take(plan.len() as int) =~= plan);
        }
    }

    /// Parse into a fresh target: the result is a default value with
    /// exactly the planned invocation sequence applied to it.
    pub fn parse<P: OptTarget + Default>(&self, args: &Vec<String>) -> (r: P)
        requires
            spec_parse::<P>(*self, args.deep_view(), 0, false) is Some,
        ensures
            exists|p0: P|
                #[trigger] call_ensures(P::default, (), p0) && r.hist() == p0.hist()
                    + spec_parse::<P>(*self, args.deep_view(), 0, false)->0,
    {
        let mut p = P::default();
        let ghost p0 = p;
        self.parse_mut(args, &mut p);
        proof {
            assert(call_ensures(P::default, (), p0) && p.hist() == p0.hist() + spec_parse::<P>(
                *self,
                args.deep_view(),
                0,
                false,
            )->0);
        }
        p
    }
}

} // verus!
