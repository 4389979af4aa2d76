//! Paths and argument routing of the Laravel Octane integration.

use vstd::prelude::*;
use crate::text::{str_eq, push_char, chars_of, string_of, concat_str, first_char, lemma_first_char};
use crate::cli::Argument;

verus! {

/// A relative path appended to a directory as `Path::join` does: after a `/`
/// unless the directory is empty or already ends with one.
pub open spec fn joined(directory: Seq<char>, relative: Seq<char>) -> Seq<char> {
    if directory.len() == 0 || directory.last() == '/' {
        directory + relative
    } else {
        directory + seq!['/'] + relative
    }
}

pub(crate) fn join_path(directory: &str, relative: &str) -> (r: String)
    ensures
        r@ == joined(directory@, relative@),
{
    let mut out = String::from_str(directory);
    let n = directory.unicode_len();
    if n > 0 && directory.get_char(n - 1) != '/' {
        push_char(&mut out, '/');
    }
    out.append(relative);
    out
}

/// Where the Octane master of a project records its state.
pub fn state_path(project_root: &str) -> (path: String)
    ensures
        path@ == joined(project_root@, ".pam/octane.json"@),
{
    join_path(project_root, ".pam/octane.json")
}

/// Options of the PAM supervisor that take a value.
pub open spec fn is_cluster_option(a: Seq<char>) -> bool {
    a == "--workers"@ || a == "--max-requests"@ || a == "--graceful-timeout"@ || a == "--startup-timeout"@
        || a == "--restart-backoff"@ || a == "--watchdog-grace"@ || a == "--admin-address"@
        || a == "--ingress-address"@ || a == "--pool"@ || a == "--php-extension"@
}

/// Flags of the PAM supervisor.
pub open spec fn is_cluster_flag(a: Seq<char>) -> bool {
    a == "--isolate-php-extensions"@
}

fn cluster_option(a: &str) -> (r: bool)
    ensures
        r == is_cluster_option(a@),
{
    str_eq(a, "--workers") || str_eq(a, "--max-requests") || str_eq(a, "--graceful-timeout")
        || str_eq(a, "--startup-timeout") || str_eq(a, "--restart-backoff") || str_eq(a, "--watchdog-grace")
        || str_eq(a, "--admin-address") || str_eq(a, "--ingress-address") || str_eq(a, "--pool")
        || str_eq(a, "--php-extension")
}

/// A piece of a split command line: one of the original arguments, by
/// position, or text cut from an argument of the form `--option=value`.
pub enum StartPiece {
    Argument(usize),
    Text(String),
}

/// What a piece stands for, with text as characters.
pub enum PieceView {
    Argument(usize),
    Text(Seq<char>),
}

impl View for StartPiece {
    type V = PieceView;

    open spec fn view(&self) -> PieceView {
        match self {
            StartPiece::Argument(i) => PieceView::Argument(*i),
            StartPiece::Text(t) => PieceView::Text(t@),
        }
    }
}

/// The views of a list of pieces.
pub open spec fn piece_views(pieces: Seq<StartPiece>) -> Seq<PieceView> {
    pieces.map_values(|p: StartPiece| p@)
}

/// The supervisor's and the server's arguments after reading `args[i..]`,
/// on top of those gathered so far.
pub open spec fn split_from(args: Seq<Argument>, i: int, supervisor: Seq<PieceView>, server: Seq<PieceView>) -> Result<
    (Seq<PieceView>, Seq<PieceView>),
    Seq<char>,
>
    decreases args.len() - i,
{
    if i < 0 || i >= args.len() {
        Ok((supervisor, server))
    } else {
        let t = args[i].text@;
        let k = first_char(t, '=');
        if is_cluster_flag(t) {
            split_from(args, i + 1, supervisor.push(PieceView::Argument(i as usize)), server)
        } else if k < t.len() && is_cluster_option(t.take(k)) {
            if k + 1 == t.len() {
                Err(t.take(k) + " requires a value"@)
            } else {
                split_from(
                    args,
                    i + 1,
                    supervisor.push(PieceView::Text(t.take(k))).push(PieceView::Text(t.skip(k + 1))),
                    server,
                )
            }
        } else if is_cluster_option(t) {
            if i + 1 >= args.len() {
                Err(t + " requires a value"@)
            } else {
                split_from(
                    args,
                    i + 2,
                    supervisor.push(PieceView::Argument(i as usize)).push(PieceView::Argument((i + 1) as usize)),
                    server,
                )
            }
        } else {
            split_from(args, i + 1, supervisor, server.push(PieceView::Argument(i as usize)))
        }
    }
}

/// Routes `pam octane:start` arguments: the supervisor's own options (as
/// `--option value` or `--option=value`) and flags to the supervisor,
/// everything else to the Laravel server, each in order.
pub fn split_start_arguments(args: &Vec<Argument>) -> (r: Result<(Vec<StartPiece>, Vec<StartPiece>), String>)
    ensures
        match (r, split_from(args@, 0, Seq::empty(), Seq::empty())) {
            (Ok((a, b)), Ok((x, y))) => piece_views(a@) == x && piece_views(b@) == y,
            (Err(e), Err(m)) => e@ == m,
            _ => false,
        },
{
    let mut supervisor: Vec<StartPiece> = Vec::new();
    let mut server: Vec<StartPiece> = Vec::new();
    let n = args.len();
    let mut i: usize = 0;
    assert(piece_views(supervisor@) =~= Seq::<PieceView>::empty());
    assert(piece_views(server@) =~= Seq::<PieceView>::empty());
    while i < n
        invariant
            n == args@.len(),
            i <= n + 1,
            split_from(args@, 0, Seq::empty(), Seq::empty()) == split_from(
                args@,
                i as int,
                piece_views(supervisor@),
                piece_views(server@),
            ),
        decreases n + 1 - i,
    {
        let text = args[i].text.as_str();
        let chars = chars_of(text);
        let mut k: usize = 0;
        while k < chars.len() && chars[k] != '='
            invariant
                k <= chars@.len(),
                forall|j: int| 0 <= j < k ==> chars@[j] != '=',
            decreases chars.len() - k,
        {
            k = k + 1;
        }
        proof {
            lemma_first_char(chars@, '=', k as int);
        }
        let ghost before_sup = piece_views(supervisor@);
        let ghost before_srv = piece_views(server@);
        if str_eq(text, "--isolate-php-extensions") {
            supervisor.push(StartPiece::Argument(i));
            proof {
                assert(piece_views(supervisor@) =~= before_sup.push(PieceView::Argument(i)));
            }
            i = i + 1;
        } else if k < chars.len() && cluster_option(string_of(&chars, 0, k).as_str()) {
            proof {
                assert(chars@.subrange(0, k as int) =~= chars@.take(k as int));
            }
            if k + 1 == chars.len() {
                return Err(concat_str(string_of(&chars, 0, k).as_str(), " requires a value"));
            }
            supervisor.push(StartPiece::Text(string_of(&chars, 0, k)));
            supervisor.push(StartPiece::Text(string_of(&chars, k + 1, chars.len())));
            proof {
                assert(chars@.subrange(k + 1, chars@.len() as int) =~= chars@.skip(k + 1));
                assert(piece_views(supervisor@) =~= before_sup.push(PieceView::Text(chars@.take(k as int))).push(
                    PieceView::Text(chars@.skip(k + 1)),
                ));
            }
            i = i + 1;
        } else if cluster_option(text) {
            if i + 1 >= n {
                return Err(concat_str(text, " requires a value"));
            }
            supervisor.push(StartPiece::Argument(i));
            supervisor.push(StartPiece::Argument(i + 1));
            proof {
                assert(piece_views(supervisor@) =~= before_sup.push(PieceView::Argument(i)).push(
                    PieceView::Argument((i + 1) as usize),
                ));
            }
            i = i + 2;
        } else {
            server.push(StartPiece::Argument(i));
            proof {
                assert(piece_views(server@) =~= before_srv.push(PieceView::Argument(i)));
            }
            i = i + 1;
        }
    }
    Ok((supervisor, server))
}

/// A piece taken from an argument list that followed `n` other arguments.
pub open spec fn shift_piece(p: PieceView, n: nat) -> PieceView {
    match p {
        PieceView::Argument(k) => PieceView::Argument((k + n) as usize),
        PieceView::Text(t) => PieceView::Text(t),
    }
}

pub open spec fn shifted(pieces: Seq<PieceView>, n: nat) -> Seq<PieceView> {
    pieces.map_values(|p: PieceView| shift_piece(p, n))
}

proof fn lemma_shifted_push(prefix: Seq<PieceView>, pieces: Seq<PieceView>, x: PieceView, n: nat)
    ensures
        prefix + shifted(pieces.push(x), n) == (prefix + shifted(pieces, n)).push(shift_piece(x, n)),
{
    assert(shifted(pieces.push(x), n) =~= shifted(pieces, n).push(shift_piece(x, n)));
    assert(prefix + shifted(pieces.push(x), n) =~= (prefix + shifted(pieces, n)).push(shift_piece(x, n)));
}

/// Reading arguments that follow `p` routes them as reading them alone
/// would, with positions counted past `p`.
proof fn lemma_split_after(
    p: Seq<Argument>,
    rest: Seq<Argument>,
    i: int,
    sup_prefix: Seq<PieceView>,
    srv_prefix: Seq<PieceView>,
    sup: Seq<PieceView>,
    srv: Seq<PieceView>,
)
    requires
        0 <= i,
        p.len() + rest.len() <= usize::MAX,
    ensures
        split_from(p + rest, i + p.len(), sup_prefix + shifted(sup, p.len()), srv_prefix + shifted(srv, p.len()))
            == match split_from(rest, i, sup, srv) {
                Ok((a, b)) => Ok::<(Seq<PieceView>, Seq<PieceView>), Seq<char>>(
                    (sup_prefix + shifted(a, p.len()), srv_prefix + shifted(b, p.len())),
                ),
                Err(e) => Err(e),
            },
    decreases rest.len() - i,
{
    let n = p.len();
    let all = p + rest;
    if i < rest.len() {
        assert(all[i + n] == rest[i]);
        let t = rest[i].text@;
        let k = first_char(t, '=');
        if is_cluster_flag(t) {
            lemma_shifted_push(sup_prefix, sup, PieceView::Argument(i as usize), n);
            lemma_split_after(p, rest, i + 1, sup_prefix, srv_prefix, sup.push(PieceView::Argument(i as usize)), srv);
        } else if k < t.len() && is_cluster_option(t.take(k)) {
            if k + 1 != t.len() {
                lemma_shifted_push(sup_prefix, sup, PieceView::Text(t.take(k)), n);
                lemma_shifted_push(sup_prefix, sup.push(PieceView::Text(t.take(k))), PieceView::Text(t.skip(k + 1)), n);
                lemma_split_after(p, rest, i + 1, sup_prefix, srv_prefix,
                    sup.push(PieceView::Text(t.take(k))).push(PieceView::Text(t.skip(k + 1))), srv);
            }
        } else if is_cluster_option(t) {
            if i + 1 < rest.len() {
                assert(all[i + n + 1] == rest[i + 1]);
                lemma_shifted_push(sup_prefix, sup, PieceView::Argument(i as usize), n);
                lemma_shifted_push(sup_prefix, sup.push(PieceView::Argument(i as usize)), PieceView::Argument((i + 1) as usize), n);
                lemma_split_after(p, rest, i + 2, sup_prefix, srv_prefix,
                    sup.push(PieceView::Argument(i as usize)).push(PieceView::Argument((i + 1) as usize)), srv);
            }
        } else {
            lemma_shifted_push(srv_prefix, srv, PieceView::Argument(i as usize), n);
            lemma_split_after(p, rest, i + 1, sup_prefix, srv_prefix, sup, srv.push(PieceView::Argument(i as usize)));
        }
    }
}

/// A supervisor option holds no `=` and is not a flag.
proof fn lemma_option_shape(t: Seq<char>)
    requires
        is_cluster_option(t),
    ensures
        !is_cluster_flag(t),
        first_char(t, '=') >= t.len(),
{
    reveal_strlit("--workers");
    reveal_strlit("--max-requests");
    reveal_strlit("--graceful-timeout");
    reveal_strlit("--startup-timeout");
    reveal_strlit("--restart-backoff");
    reveal_strlit("--watchdog-grace");
    reveal_strlit("--admin-address");
    reveal_strlit("--ingress-address");
    reveal_strlit("--pool");
    reveal_strlit("--php-extension");
    reveal_strlit("--isolate-php-extensions");
    reveal_with_fuel(first_char, 20);
}

/// A supervisor option written as two arguments (the option, then its
/// value) sends both to the supervisor, in order and first; the server gets
/// exactly what the arguments after them give it, read alone and counted
/// past the pair, so neither of the pair.
pub proof fn lemma_option_pair_goes_to_supervisor(option: Argument, value: Argument, rest: Seq<Argument>)
    requires
        is_cluster_option(option.text@),
        rest.len() + 2 <= usize::MAX,
    ensures
        split_from(seq![option, value] + rest, 0, Seq::empty(), Seq::empty()) == match split_from(rest, 0, Seq::empty(), Seq::empty()) {
            Ok((a, b)) => Ok::<(Seq<PieceView>, Seq<PieceView>), Seq<char>>(
                (seq![PieceView::Argument(0), PieceView::Argument(1)] + shifted(a, 2), shifted(b, 2)),
            ),
            Err(e) => Err(e),
        },
{
    let args = seq![option, value] + rest;
    lemma_option_shape(option.text@);
    assert(args[0] == option);
    assert(args[1] == value);
    let pair = seq![PieceView::Argument(0), PieceView::Argument(1)];
    assert(Seq::<PieceView>::empty().push(PieceView::Argument(0)).push(PieceView::Argument(1)) =~= pair + shifted(Seq::empty(), 2));
    assert(Seq::<PieceView>::empty() =~= Seq::<PieceView>::empty() + shifted(Seq::empty(), 2));
    lemma_split_after(seq![option, value], rest, 0, pair, Seq::empty(), Seq::empty(), Seq::empty());
    assert(0 + seq![option, value].len() == 2);
    match split_from(rest, 0, Seq::empty(), Seq::empty()) {
        Ok((a, b)) => {
            assert(Seq::<PieceView>::empty() + shifted(b, 2) =~= shifted(b, 2));
        },
        Err(_) => {},
    }
}

} // verus!
