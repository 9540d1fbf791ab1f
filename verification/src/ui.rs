//! Menus and command-line arguments: what is shown and what a reply means.
use vstd::prelude::*;
use crate::text::{append_chars, chars_of, decimal, decimal_exec, parse_u32, parse_u32_exec, parse_usize, parse_usize_exec, str_eq, string_of};

verus! {

/// What a reply to a menu means.
#[derive(PartialEq, Eq, Structural, Clone, Copy, Debug)]
pub enum MenuReply {
    /// `q` or `Q`.
    Quit,
    /// Not a number from 0 to the number of items.
    Invalid,
    /// The number chosen (0 is "back" where the menu offers it).
    Choice(usize),
}

/// What a (trimmed) reply to a menu of `n` items means.
pub open spec fn spec_menu_reply(reply: Seq<char>, n: nat) -> MenuReply {
    if reply == "q"@ || reply == "Q"@ {
        MenuReply::Quit
    } else {
        match parse_usize(reply) {
            Some(k) => if k <= n { MenuReply::Choice(k) } else { MenuReply::Invalid },
            None => MenuReply::Invalid,
        }
    }
}

/// See [`spec_menu_reply`].
pub fn menu_reply(reply: &str, n: usize) -> (r: MenuReply)
    ensures
        r == spec_menu_reply(reply@, n as nat),
{
    if str_eq(reply, "q") || str_eq(reply, "Q") {
        return MenuReply::Quit;
    }
    let c = chars_of(reply);
    match parse_usize_exec(c.as_slice()) {
        Some(k) => if k <= n { MenuReply::Choice(k) } else { MenuReply::Invalid },
        None => MenuReply::Invalid,
    }
}

/// A choice of a menu is never past its last item.
pub proof fn lemma_menu_choice_in_range(reply: Seq<char>, n: nat)
    ensures
        spec_menu_reply(reply, n) matches MenuReply::Choice(k) ==> k <= n,
{
}

/// The lines of a menu: its title, its numbered items, `0. Back` where
/// offered, and `q. Quit`.
pub open spec fn spec_menu_lines(title: Seq<char>, items: Seq<Seq<char>>, show_back: bool) -> Seq<Seq<char>> {
    seq!["\n=== "@ + title + " ==="@]
        + Seq::new(items.len(), |i: int| "  "@ + decimal((i + 1) as nat) + ". "@ + items[i])
        + (if show_back { seq!["  0. Back"@] } else { seq![] })
        + seq!["  q. Quit"@]
}

/// See [`spec_menu_lines`].
pub fn menu_lines(title: &str, items: &Vec<String>, show_back: bool) -> (r: Vec<String>)
    ensures
        r@.map_values(|l: String| l@) == spec_menu_lines(title@, items@.map_values(|s: String| s@), show_back),
{
    let ghost iv = items@.map_values(|s: String| s@);
    let mut out: Vec<String> = Vec::new();
    let mut head = chars_of("\n=== ");
    let t = chars_of(title);
    append_chars(&mut head, t.as_slice());
    let tail = chars_of(" ===");
    append_chars(&mut head, tail.as_slice());
    out.push(string_of(head.as_slice()));
    let mut i: usize = 0;
    while i < items.len()
        invariant
            i <= items@.len(),
            iv == items@.map_values(|s: String| s@),
            out@.map_values(|l: String| l@) == seq!["\n=== "@ + title@ + " ==="@] + Seq::new(
                i as nat,
                |k: int| "  "@ + decimal((k + 1) as nat) + ". "@ + iv[k],
            ),
        decreases items.len() - i,
    {
        let mut line = chars_of("  ");
        let d = decimal_exec(i as u128 + 1);
        append_chars(&mut line, d.as_slice());
        let dot = chars_of(". ");
        append_chars(&mut line, dot.as_slice());
        let it = chars_of(items[i].as_str());
        append_chars(&mut line, it.as_slice());
        let ghost before = out@.map_values(|l: String| l@);
        assert(iv[i as int] == items@[i as int]@);
        assert(line@ =~= "  "@ + decimal((i + 1) as nat) + ". "@ + iv[i as int]);
        let ls = string_of(line.as_slice());
        out.push(ls);
        proof {
            assert(out@.map_values(|l: String| l@) =~= before.push(ls@));
            assert(out@.map_values(|l: String| l@) =~= seq!["\n=== "@ + title@ + " ==="@] + Seq::new(
                (i + 1) as nat,
                |k: int| "  "@ + decimal((k + 1) as nat) + ". "@ + iv[k],
            ));
        }
        i = i + 1;
    }
    if show_back {
        out.push("  0. Back".to_owned());
    }
    out.push("  q. Quit".to_owned());
    proof {
        assert(out@.map_values(|l: String| l@) =~= spec_menu_lines(title@, iv, show_back));
    }
    out
}

/// What a numbered choice selects.
#[derive(PartialEq, Eq, Structural, Clone, Copy, Debug)]
pub enum MenuPick {
    /// Back to the previous menu.
    Back,
    /// The item at this index (from 0).
    Item(usize),
}

/// The item a choice selects: `0` is back where the menu offers it; a choice
/// `k` from 1 selects the item at index `k - 1`.
pub fn menu_pick(choice: usize, show_back: bool) -> (r: MenuPick)
    requires
        choice > 0 || show_back,
    ensures
        r == (if choice == 0 { MenuPick::Back } else { MenuPick::Item((choice - 1) as usize) }),
{
    if choice == 0 {
        MenuPick::Back
    } else {
        MenuPick::Item(choice - 1)
    }
}

/// How the program is run, read from its arguments.
pub enum CliMode {
    /// Print the usage.
    Help,
    /// Wrong arguments: print the short usage to the error stream.
    Usage,
    /// Ask for the user name and password.
    Prompt,
    /// Sign in with these and browse.
    Interactive { user: String, password: String },
    /// Sign in with these and submit this file to this assignment.
    Direct { user: String, password: String, assignment: String, file: String },
}

/// The view of a mode: `(0, ..)` help, `(1, ..)` usage, `(2, ..)` prompt,
/// `(3, user, password, ..)` interactive, `(4, user, password, assignment,
/// file)` direct.
pub open spec fn cli_mode_view(m: CliMode) -> (nat, Seq<char>, Seq<char>, Seq<char>, Seq<char>) {
    match m {
        CliMode::Help => (0, seq![], seq![], seq![], seq![]),
        CliMode::Usage => (1, seq![], seq![], seq![], seq![]),
        CliMode::Prompt => (2, seq![], seq![], seq![], seq![]),
        CliMode::Interactive { user, password } => (3, user@, password@, seq![], seq![]),
        CliMode::Direct { user, password, assignment, file } => (4, user@, password@, assignment@, file@),
    }
}

/// The mode the arguments (program name first) ask for: four or more give
/// user, password, assignment and file; two or three give user and
/// password; a single `-h` or `--help` asks for help; any other single
/// argument is a mistake; none asks for the credentials.
pub open spec fn spec_cli_mode(args: Seq<Seq<char>>) -> (nat, Seq<char>, Seq<char>, Seq<char>, Seq<char>) {
    if args.len() >= 5 {
        (4, args[1], args[2], args[3], args[4])
    } else if args.len() >= 3 {
        (3, args[1], args[2], seq![], seq![])
    } else if args.len() == 2 && (args[1] == "-h"@ || args[1] == "--help"@) {
        (0, seq![], seq![], seq![], seq![])
    } else if args.len() > 1 {
        (1, seq![], seq![], seq![], seq![])
    } else {
        (2, seq![], seq![], seq![], seq![])
    }
}

/// See [`spec_cli_mode`].
pub fn cli_mode(args: &Vec<String>) -> (r: CliMode)
    ensures
        cli_mode_view(r) == spec_cli_mode(args@.map_values(|s: String| s@)),
{
    let ghost av = args@.map_values(|s: String| s@);
    if args.len() >= 5 {
        assert(av[1] == args@[1]@ && av[2] == args@[2]@ && av[3] == args@[3]@ && av[4] == args@[4]@);
        CliMode::Direct {
            user: args[1].clone(),
            password: args[2].clone(),
            assignment: args[3].clone(),
            file: args[4].clone(),
        }
    } else if args.len() >= 3 {
        assert(av[1] == args@[1]@ && av[2] == args@[2]@);
        CliMode::Interactive { user: args[1].clone(), password: args[2].clone() }
    } else if args.len() == 2 && (str_eq(args[1].as_str(), "-h") || str_eq(args[1].as_str(), "--help")) {
        CliMode::Help
    } else if args.len() > 1 {
        CliMode::Usage
    } else {
        CliMode::Prompt
    }
}

/// The name given to an assignment submitted directly.
pub open spec fn spec_direct_assignment_name(id: u32) -> Seq<char> {
    "Assignment "@ + decimal(id as nat)
}

/// See [`spec_direct_assignment_name`].
pub fn direct_assignment_name(id: u32) -> (r: String)
    ensures
        r@ == spec_direct_assignment_name(id),
{
    let mut v = chars_of("Assignment ");
    let d = decimal_exec(id as u128);
    append_chars(&mut v, d.as_slice());
    string_of(v.as_slice())
}


/// The assignment number given on the command line, read as `u32::from_str`
/// reads it.
pub fn parse_assignment_id(arg: &str) -> (r: Option<u32>)
    ensures
        r == parse_u32(arg@),
{
    let c = chars_of(arg);
    parse_u32_exec(c.as_slice())
}

} // verus!
