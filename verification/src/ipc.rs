//! The control plane's decisions: the line protocol of the per-user
//! socket, the resolution of the socket path, and the client side's
//! message. The listener, the connections and the worker threads live
//! outside the crate.

use crate::config::ConfigV;
use crate::numfmt::dec_digits;
use crate::numfmt::u64_to_dec;
use crate::parser::parse_config_spec;
use crate::Commands;
use vstd::prelude::*;

verus! {

/// The bytes of `reload`.
pub open spec fn reload_tok() -> Seq<u8> {
    seq![0x72u8, 0x65, 0x6C, 0x6F, 0x61, 0x64]
}

/// The bytes of `/gestures.sock`.
pub open spec fn suffix_gestures_sock() -> Seq<u8> {
    seq![0x2Fu8, 0x67, 0x65, 0x73, 0x74, 0x75, 0x72, 0x65, 0x73, 0x2E, 0x73, 0x6F, 0x63, 0x6B]
}

/// The bytes of `/run/user/`.
pub open spec fn run_user_prefix() -> Seq<u8> {
    seq![0x2Fu8, 0x72, 0x75, 0x6E, 0x2F, 0x75, 0x73, 0x65, 0x72, 0x2F]
}

/// The line asks for a reload: it contains the substring `reload`.
pub open spec fn contains_reload(s: Seq<u8>) -> bool {
    exists|i: int| 0 <= i && i + 6 <= s.len() && #[trigger] s.subrange(i, i + 6) == reload_tok()
}

/// The bytes of `reload` as a vector.
fn build_reload_tok() -> (v: Vec<u8>)
    ensures
        v@ == reload_tok(),
{
    let mut v: Vec<u8> = Vec::new();
    v.push(0x72);
    v.push(0x65);
    v.push(0x6C);
    v.push(0x6F);
    v.push(0x61);
    v.push(0x64);
    proof {
        assert(v@ =~= reload_tok());
    }
    v
}

/// Whether `tok` occurs in `s` at position `i`.
fn tok_at(s: &Vec<u8>, i: usize, tok: &Vec<u8>) -> (r: bool)
    requires
        i + tok@.len() <= s@.len(),
    ensures
        r == (s@.subrange(i as int, i + tok@.len()) == tok@),
{
    let mut k: usize = 0;
    while k < tok.len()
        invariant
            i + tok@.len() <= s@.len(),
            k <= tok@.len(),
            forall|j: int| 0 <= j < k ==> s@[i + j] == tok@[j],
        decreases tok@.len() - k,
    {
        let n = s.len();
        proof {
            assert(i + k < n);
        }
        if s[i + k] != tok[k] {
            proof {
                assert(s@.subrange(i as int, i + tok@.len())[k as int] != tok@[k as int]);
            }
            return false;
        }
        k += 1;
    }
    proof {
        assert(s@.subrange(i as int, i + tok@.len()) =~= tok@);
    }
    true
}

/// Whether a protocol line asks for a reload: any line containing the
/// substring `reload` does; every other line is ignored.
pub fn line_contains_reload(line: &Vec<u8>) -> (r: bool)
    ensures
        r == contains_reload(line@),
{
    let tok = build_reload_tok();
    if line.len() < 6 {
        return false;
    }
    let mut i: usize = 0;
    while i <= line.len() - 6
        invariant
            tok@ == reload_tok(),
            line@.len() >= 6,
            i <= line@.len(),
            forall|j: int| 0 <= j < i ==> #[trigger] line@.subrange(j, j + 6) != reload_tok(),
        decreases line@.len() - i,
    {
        if tok_at(line, i, &tok) {
            proof {
                assert(contains_reload(line@));
            }
            return true;
        }
        i += 1;
    }
    proof {
        assert(!contains_reload(line@));
    }
    false
}

/// The message the command-line client sends for a command: `reload` asks
/// the daemon to re-read its configuration; `start` and the installer
/// subcommands send nothing.
pub fn handle_command(cmd: &Commands) -> (msg: Option<Vec<u8>>)
    ensures
        (match cmd {
            Commands::Reload => msg matches Option::Some(v) && v@ == reload_tok(),
            _ => msg is None,
        }),
{
    match cmd {
        Commands::Reload => Option::Some(build_reload_tok()),
        _ => Option::None,
    }
}

/// The control socket path: `$XDG_RUNTIME_DIR/gestures.sock` when the
/// runtime directory is known, else `/run/user/<euid>/gestures.sock`.
pub fn socket_path(runtime_dir: Option<&Vec<u8>>, euid: u32) -> (r: Vec<u8>)
    ensures
        (match runtime_dir {
            Option::Some(d) => r@ == d@ + suffix_gestures_sock(),
            Option::None => r@ == run_user_prefix() + dec_digits(euid as nat)
                + suffix_gestures_sock(),
        }),
{
    let mut sock: Vec<u8> = Vec::new();
    sock.push(0x2F);
    sock.push(0x67);
    sock.push(0x65);
    sock.push(0x73);
    sock.push(0x74);
    sock.push(0x75);
    sock.push(0x72);
    sock.push(0x65);
    sock.push(0x73);
    sock.push(0x2E);
    sock.push(0x73);
    sock.push(0x6F);
    sock.push(0x63);
    sock.push(0x6B);
    proof {
        assert(sock@ =~= suffix_gestures_sock());
    }
    match runtime_dir {
        Option::Some(d) => {
            let mut out = crate::gestures::clone_bytes(d);
            out.append(&mut sock);
            out
        },
        Option::None => {
            let mut out: Vec<u8> = Vec::new();
            out.push(0x2F);
            out.push(0x72);
            out.push(0x75);
            out.push(0x6E);
            out.push(0x2F);
            out.push(0x75);
            out.push(0x73);
            out.push(0x65);
            out.push(0x72);
            out.push(0x2F);
            proof {
                assert(out@ =~= run_user_prefix());
            }
            let mut num = u64_to_dec(euid as u64);
            out.append(&mut num);
            out.append(&mut sock);
            out
        },
    }
}

/// Reloading from an unchanged file is a no-op on the observable
/// configuration: parsing is a function of the text alone, so what the
/// reload path installs equals what is already installed.
pub proof fn lemma_reload_unchanged(cur: ConfigV, text: Seq<u8>, reread: ConfigV)
    requires
        parse_config_spec(text) == Option::Some(cur.gestures),
        parse_config_spec(text) == Option::Some(reread.gestures),
    ensures
        reread == cur,
{
}

} // verus!
