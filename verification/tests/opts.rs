use r4::opts::ExtraHandler;
use r4::opts::NamedSpec;
use r4::opts::OptParser;
use r4::opts::OptTarget;
use r4::trie::NameTrie;

fn strings(args: &[&str]) -> Vec<String> {
    args.iter().map(|s| s.to_string()).collect()
}

#[test]
fn trie_exact_and_prefix() {
    let mut t: NameTrie<usize> = NameTrie::new();
    t.insert("alpha", 1);
    t.insert("beta", 2);
    t.insert("al", 3);

    // An exact match is honoured even though "alpha" extends "al".
    assert_eq!(t.get("al"), vec![3]);
    assert_eq!(t.get("alpha"), vec![1]);
    assert_eq!(t.get("beta"), vec![2]);
    // A prefix collects everything below it, node value first.
    assert_eq!(t.get("a"), vec![3, 1]);
    assert_eq!(t.get("alp"), vec![1]);
    assert_eq!(t.get("b"), vec![2]);
    // No match at all.
    assert_eq!(t.get("c"), Vec::<usize>::new());
    assert_eq!(t.get("alphax"), Vec::<usize>::new());
    assert_eq!(t.get("betas"), Vec::<usize>::new());
}

#[test]
fn trie_empty_name_is_a_name() {
    let mut t: NameTrie<usize> = NameTrie::new();
    t.insert("", 9);
    t.insert("x", 1);
    assert_eq!(t.get(""), vec![9]);
    assert_eq!(t.get("x"), vec![1]);
}

const H_MSG: usize = 1;
const H_KEEP: usize = 2;
const H_EXTRA: usize = 3;
const H_SOFT: usize = 8;
const H_HARD: usize = 9;

fn table() -> OptParser {
    let mut v = OptParser::new().view();
    v.match_single(&["msg", "m"], H_MSG);
    v.match_zero(&["keep-bof", "k"], H_KEEP);
    v.match_extra_hard(H_EXTRA);
    v.0
}

/// Records every handler invocation; its soft handlers accept everything.
#[derive(Default, Debug, PartialEq)]
struct Rec {
    calls: Vec<(usize, Vec<String>)>,
}

impl OptTarget for Rec {
    fn apply(&mut self, handler: usize, args: Vec<String>) {
        self.calls.push((handler, args));
    }

    fn accept_extra(&mut self, handler: usize, arg: &String) -> bool {
        self.calls.push((handler, vec![arg.clone()]));
        true
    }
}

/// Its soft handlers accept only arguments starting with "n:".
#[derive(Default, Debug, PartialEq)]
struct Picky {
    calls: Vec<(usize, Vec<String>)>,
}

impl OptTarget for Picky {
    fn apply(&mut self, handler: usize, args: Vec<String>) {
        self.calls.push((handler, args));
    }

    fn accept_extra(&mut self, handler: usize, arg: &String) -> bool {
        if arg.starts_with("n:") {
            self.calls.push((handler, vec![arg.clone()]));
            true
        } else {
            false
        }
    }
}

#[test]
fn parse_named_abbreviated_and_extra() {
    let p = table();
    let mut r = Rec::default();
    p.parse_mut(&strings(&["--ms", "hello", "-k", "tail1", "tail2"]), &mut r);
    assert_eq!(
        r.calls,
        vec![
            (H_MSG, strings(&["hello"])),
            (H_KEEP, strings(&[])),
            (H_EXTRA, strings(&["tail1", "tail2"])),
        ]
    );
}

#[test]
fn parse_double_dash_stops_options() {
    let p = table();
    let mut r = Rec::default();
    p.parse_mut(&strings(&["--", "--msg", "x"]), &mut r);
    assert_eq!(r.calls, vec![(H_EXTRA, strings(&["--msg", "x"]))]);
}

#[test]
fn parse_soft_extras_one_by_one() {
    let mut v = OptParser::new().view();
    v.match_zero(&["k"], H_KEEP);
    v.match_extra_soft(H_SOFT);
    let p = v.0;
    let mut r = Rec::default();
    p.parse_mut(&strings(&["x", "-k", "y"]), &mut r);
    assert_eq!(
        r.calls,
        vec![
            (H_SOFT, strings(&["x"])),
            (H_KEEP, strings(&[])),
            (H_SOFT, strings(&["y"])),
        ]
    );
}

/// The extra handlers form a fallback chain: a declined soft handler
/// passes the argument on, here to a hard handler that takes the rest.
#[test]
fn soft_decline_falls_through_to_hard() {
    let mut v = OptParser::new().view();
    v.match_extra_soft(H_SOFT);
    v.match_extra_hard(H_HARD);
    let p = v.0;
    let mut r = Picky::default();
    p.parse_mut(&strings(&["n:1", "other", "n:2"]), &mut r);
    assert_eq!(
        r.calls,
        vec![
            (H_SOFT, strings(&["n:1"])),
            (H_HARD, strings(&["other", "n:2"])),
        ]
    );
}

#[test]
fn parse_empty_args() {
    let p = table();
    let mut r = Rec::default();
    p.parse_mut(&strings(&[]), &mut r);
    assert_eq!(r.calls, vec![]);
}

/// Option values accumulated through `parse`: handlers write real fields.
#[derive(Default, Debug, PartialEq)]
struct Opts {
    msg: Option<String>,
    keep: bool,
    rest: Vec<String>,
}

impl OptTarget for Opts {
    fn apply(&mut self, handler: usize, mut args: Vec<String>) {
        match handler {
            H_MSG => self.msg = Some(args.remove(0)),
            H_KEEP => self.keep = true,
            H_EXTRA => self.rest.append(&mut args),
            _ => panic!("unknown handler"),
        }
    }

    fn accept_extra(&mut self, _handler: usize, _arg: &String) -> bool {
        panic!("this table registers no soft handler");
    }
}

#[test]
fn parse_applies_to_target() {
    let p = table();
    let o: Opts = p.parse(&strings(&["--msg", "hi", "--keep-bof", "a", "b"]));
    assert_eq!(
        o,
        Opts { msg: Some("hi".to_string()), keep: true, rest: strings(&["a", "b"]) }
    );
}

#[test]
fn parse_empty_args_returns_default() {
    let p = table();
    let o: Opts = p.parse(&strings(&[]));
    assert_eq!(o, Opts::default());
}

#[test]
fn registration_shape() {
    let p = table();
    assert_eq!(p.extra, vec![ExtraHandler::Hard(H_EXTRA)]);
    assert_eq!(p.named.get("msg"), vec![NamedSpec { argct: 1, handler: H_MSG }]);
    assert_eq!(p.named.get("m"), vec![NamedSpec { argct: 1, handler: H_MSG }]);
}

#[test]
fn parse_two_argument_option() {
    let mut v = OptParser::new().view();
    v.match_n(&["pair"], 2, 7);
    let p = v.0;
    let mut r = Rec::default();
    p.parse_mut(&strings(&["--pa", "one", "two"]), &mut r);
    assert_eq!(r.calls, vec![(7, strings(&["one", "two"]))]);
}
