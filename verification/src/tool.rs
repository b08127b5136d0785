//! The tool handle and the rule and chain operations.  Every operation
//! builds the exact argument vector that the tool is positional-sensitive
//! about; the compound operations decide, from the recorded outcome of an
//! earlier invocation, which invocation comes next.

use vstd::prelude::*;

use crate::error::{IPTError, IPTResult};
use crate::text::{
    dec_string_i32, lemma_views_of_concat, lemma_views_of_push, seq_contains, spec_dec_int,
    spec_trim, split_char, split_str, str_contains, trim_str, views_of,
};

verus! {

/// Which of the two fixed tool variants a handle drives.
#[derive(Clone, Copy, PartialEq, Eq, Structural, Debug)]
pub enum ToolKind {
    /// The IPv4 tool, `iptables`.
    IPv4,
    /// The IPv6 tool, `ip6tables`.
    IPv6,
}

impl ToolKind {
    /// The command name of this tool variant.
    pub fn name(&self) -> (r: &'static str)
        ensures
            *self == ToolKind::IPv4 ==> r@ == "iptables"@,
            *self == ToolKind::IPv6 ==> r@ == "ip6tables"@,
    {
        match self {
            ToolKind::IPv4 => "iptables",
            ToolKind::IPv6 => "ip6tables",
        }
    }
}

/// An immutable handle on one firewall tool: the command to drive and the two
/// capability flags derived once from its version.
#[derive(Clone, Copy, PartialEq, Eq, Structural, Debug)]
pub struct IPTables {
    /// The tool variant the handle drives.
    pub cmd: ToolKind,
    /// The tool offers the atomic existence-check flag.
    pub has_check: bool,
    /// The tool offers the built-in blocking wait flag.
    pub has_wait: bool,
}

/// One planned invocation of the tool: the command and the operation's
/// argument vector, before the coordinator adds its serialization flag.
#[derive(Debug)]
pub struct Invocation {
    /// The tool variant to launch.
    pub cmd: ToolKind,
    /// The argument vector, in the order the tool expects.
    pub args: Vec<String>,
}

fn push_arg(args: &mut Vec<String>, s: &str)
    ensures
        final(args)@.len() == old(args)@.len() + 1,
        views_of(final(args)@) =~~= views_of(old(args)@).push(s@),
{
    let owned = s.to_owned();
    proof {
        lemma_views_of_push(args@, owned);
    }
    args.push(owned);
}

/// The common prefix of every argument vector: the table selector.
pub open spec fn spec_table_args(table: Seq<char>) -> Seq<Seq<char>> {
    seq!["-t"@, table]
}

fn table_args(table: &str) -> (r: Vec<String>)
    ensures
        views_of(r@) =~~= spec_table_args(table@),
{
    let mut args: Vec<String> = Vec::new();
    push_arg(&mut args, "-t");
    push_arg(&mut args, table);
    proof {
        assert(views_of(args@) =~~= spec_table_args(table@));
    }
    args
}

/// An argument vector of the shape `-t <table> <flag> <chain> <rule words>`.
pub open spec fn spec_rule_args(
    flag: Seq<char>,
    table: Seq<char>,
    chain: Seq<char>,
    rule: Seq<char>,
) -> Seq<Seq<char>> {
    spec_table_args(table) + seq![flag, chain] + split_char(rule, ' ')
}

/// An argument vector of the shape `-t <table> <flag> <chain> <position>
/// <rule words>`.
pub open spec fn spec_rule_args_at(
    flag: Seq<char>,
    table: Seq<char>,
    chain: Seq<char>,
    position: int,
    rule: Seq<char>,
) -> Seq<Seq<char>> {
    spec_table_args(table) + seq![flag, chain, spec_dec_int(position)] + split_char(rule, ' ')
}

fn rule_args(flag: &str, table: &str, chain: &str, rule: &str) -> (r: Vec<String>)
    ensures
        views_of(r@) =~~= spec_rule_args(flag@, table@, chain@, rule@),
{
    let mut args = table_args(table);
    push_arg(&mut args, flag);
    push_arg(&mut args, chain);
    let mut tail = split_str(rule, ' ');
    proof {
        lemma_views_of_concat(args@, tail@);
    }
    args.append(&mut tail);
    proof {
        assert(views_of(args@) =~~= spec_rule_args(flag@, table@, chain@, rule@));
    }
    args
}

fn rule_args_at(flag: &str, table: &str, chain: &str, position: i32, rule: &str) -> (r: Vec<
    String,
>)
    ensures
        views_of(r@) =~~= spec_rule_args_at(flag@, table@, chain@, position as int, rule@),
{
    let mut args = table_args(table);
    push_arg(&mut args, flag);
    push_arg(&mut args, chain);
    let pos = dec_string_i32(position);
    proof {
        lemma_views_of_push(args@, pos);
    }
    args.push(pos);
    let mut tail = split_str(rule, ' ');
    proof {
        lemma_views_of_concat(args@, tail@);
    }
    args.append(&mut tail);
    proof {
        assert(views_of(args@) =~~= spec_rule_args_at(
            flag@,
            table@,
            chain@,
            position as int,
            rule@,
        ));
    }
    args
}

/// The listing invocation `-t <table> -S`, optionally narrowed to a chain.
pub open spec fn spec_list_args(table: Seq<char>, chain: Option<Seq<char>>) -> Seq<Seq<char>> {
    match chain {
        Some(c) => spec_table_args(table) + seq!["-S"@, c],
        None => spec_table_args(table) + seq!["-S"@],
    }
}

/// The listing text holds the rule, written as the tool prints an appended
/// rule: `-A <chain> <rule>`.
pub open spec fn listing_has_rule(listing: Seq<char>, chain: Seq<char>, rule: Seq<char>) -> bool {
    seq_contains(listing, "-A "@ + chain + " "@ + rule)
}

impl IPTables {
    /// The invocation that checks for the existence of the rule in the
    /// table/chain: the atomic check flag where the tool has it, a full
    /// listing otherwise.  Interpret the outcome with
    /// [`IPTables::exists_result`].
    pub fn rule_exists(&self, table: &str, chain: &str, rule: &str) -> (r: Invocation)
        ensures
            r.cmd == self.cmd,
            self.has_check ==> views_of(r.args@) == spec_rule_args("-C"@, table@, chain@, rule@),
            !self.has_check ==> views_of(r.args@) == spec_list_args(table@, None),
    {
        if self.has_check {
            Invocation { cmd: self.cmd, args: rule_args("-C", table, chain, rule) }
        } else {
            let mut args = table_args(table);
            push_arg(&mut args, "-S");
            proof {
                assert(views_of(args@) =~~= spec_list_args(table@, None));
            }
            Invocation { cmd: self.cmd, args }
        }
    }

    /// Whether the rule exists, read off the outcome of the invocation that
    /// [`IPTables::rule_exists`] built: the exit status of the atomic check where
    /// the tool has it, a search of the captured listing otherwise.
    pub fn exists_result(&self, chain: &str, rule: &str, success: bool, listing: &str) -> (b:
        bool)
        ensures
            self.has_check ==> b == success,
            !self.has_check ==> b == listing_has_rule(listing@, chain@, rule@),
    {
        if self.has_check {
            success
        } else {
            self.exists_old_version(chain, rule, listing)
        }
    }

    /// Whether a captured full listing shows the rule as appended to the
    /// chain: the existence check for tool versions without the atomic check
    /// flag.
    pub fn exists_old_version(&self, chain: &str, rule: &str, listing: &str) -> (b: bool)
        ensures
            b == listing_has_rule(listing@, chain@, rule@),
    {
        let mut needle = "-A ".to_owned();
        needle.append(chain);
        needle.append(" ");
        needle.append(rule);
        proof {
            assert(needle@ =~= "-A "@ + chain@ + " "@ + rule@);
        }
        str_contains(listing, needle.as_str())
    }

    /// The invocation that inserts the rule at the position in the
    /// table/chain.
    pub fn insert(&self, table: &str, chain: &str, rule: &str, position: i32) -> (r: Invocation)
        ensures
            r.cmd == self.cmd,
            views_of(r.args@) == spec_rule_args_at("-I"@, table@, chain@, position as int, rule@),
    {
        Invocation { cmd: self.cmd, args: rule_args_at("-I", table, chain, position, rule) }
    }

    /// The invocation that replaces the rule at the position in the
    /// table/chain.
    pub fn replace(&self, table: &str, chain: &str, rule: &str, position: i32) -> (r: Invocation)
        ensures
            r.cmd == self.cmd,
            views_of(r.args@) == spec_rule_args_at("-R"@, table@, chain@, position as int, rule@),
    {
        Invocation { cmd: self.cmd, args: rule_args_at("-R", table, chain, position, rule) }
    }

    /// The invocation that appends the rule to the table/chain.
    pub fn append(&self, table: &str, chain: &str, rule: &str) -> (r: Invocation)
        ensures
            r.cmd == self.cmd,
            views_of(r.args@) == spec_rule_args("-A"@, table@, chain@, rule@),
    {
        Invocation { cmd: self.cmd, args: rule_args("-A", table, chain, rule) }
    }

    /// The invocation that deletes the rule from the table/chain.
    pub fn delete(&self, table: &str, chain: &str, rule: &str) -> (r: Invocation)
        ensures
            r.cmd == self.cmd,
            views_of(r.args@) == spec_rule_args("-D"@, table@, chain@, rule@),
    {
        Invocation { cmd: self.cmd, args: rule_args("-D", table, chain, rule) }
    }

    /// Decides the insert-if-absent operation from the recorded existence of
    /// the rule: refuses when the rule already exists, otherwise hands back
    /// the insert invocation.
    pub fn insert_unique(&self, table: &str, chain: &str, rule: &str, position: i32, already:
        bool) -> (r: IPTResult<Invocation>)
        ensures
            already ==> (r matches Err(IPTError::Other(m)) && m@
                == "the rule exists in the table/chain"@),
            !already ==> (r matches Ok(inv) && inv.cmd == self.cmd && views_of(inv.args@)
                == spec_rule_args_at("-I"@, table@, chain@, position as int, rule@)),
    {
        if already {
            Err(IPTError::Other("the rule exists in the table/chain".to_owned()))
        } else {
            Ok(self.insert(table, chain, rule, position))
        }
    }

    /// Decides the append-if-absent operation from the recorded existence of
    /// the rule: refuses when the rule already exists, otherwise hands back
    /// the append invocation.
    pub fn append_unique(&self, table: &str, chain: &str, rule: &str, already: bool) -> (r:
        IPTResult<Invocation>)
        ensures
            already ==> (r matches Err(IPTError::Other(m)) && m@
                == "the rule exists in the table/chain"@),
            !already ==> (r matches Ok(inv) && inv.cmd == self.cmd && views_of(inv.args@)
                == spec_rule_args("-A"@, table@, chain@, rule@)),
    {
        if already {
            Err(IPTError::Other("the rule exists in the table/chain".to_owned()))
        } else {
            Ok(self.append(table, chain, rule))
        }
    }

    /// Decides the append-or-replace operation from the recorded existence of
    /// the rule: a delete invocation to run first exactly when the rule
    /// already exists, then the append invocation.
    pub fn append_replace(&self, table: &str, chain: &str, rule: &str, already: bool) -> (r: (
        Option<Invocation>,
        Invocation,
    ))
        ensures
            already ==> (r.0 matches Some(d) && d.cmd == self.cmd && views_of(d.args@)
                == spec_rule_args("-D"@, table@, chain@, rule@)),
            !already ==> r.0 is None,
            r.1.cmd == self.cmd,
            views_of(r.1.args@) == spec_rule_args("-A"@, table@, chain@, rule@),
    {
        let first = if already {
            Some(self.delete(table, chain, rule))
        } else {
            None
        };
        (first, self.append(table, chain, rule))
    }

    /// Decides one round of the delete-all loop from the recorded existence
    /// of the rule: another delete invocation exactly while the rule still
    /// exists, nothing once it is gone.
    pub fn delete_all(&self, table: &str, chain: &str, rule: &str, still_there: bool) -> (r:
        Option<Invocation>)
        ensures
            still_there ==> (r matches Some(d) && d.cmd == self.cmd && views_of(d.args@)
                == spec_rule_args("-D"@, table@, chain@, rule@)),
            !still_there ==> r is None,
    {
        if still_there {
            Some(self.delete(table, chain, rule))
        } else {
            None
        }
    }

    /// The invocation that lists the rules of one chain of the table.
    /// Interpret the captured output with [`parse_list`].
    pub fn list(&self, table: &str, chain: &str) -> (r: Invocation)
        ensures
            r.cmd == self.cmd,
            views_of(r.args@) == spec_list_args(table@, Some(chain@)),
    {
        let mut args = table_args(table);
        push_arg(&mut args, "-S");
        push_arg(&mut args, chain);
        proof {
            assert(views_of(args@) =~~= spec_list_args(table@, Some(chain@)));
        }
        Invocation { cmd: self.cmd, args }
    }

    /// The invocation that lists every rule of the table.  Interpret the
    /// captured output with [`parse_list`].
    pub fn list_table(&self, table: &str) -> (r: Invocation)
        ensures
            r.cmd == self.cmd,
            views_of(r.args@) == spec_list_args(table@, None),
    {
        let mut args = table_args(table);
        push_arg(&mut args, "-S");
        proof {
            assert(views_of(args@) =~~= spec_list_args(table@, None));
        }
        Invocation { cmd: self.cmd, args }
    }

    /// The invocation that lists every rule of the table, for reading the
    /// chain names out of the captured output with [`parse_chain_names`].
    pub fn list_chains(&self, table: &str) -> (r: Invocation)
        ensures
            r.cmd == self.cmd,
            views_of(r.args@) == spec_list_args(table@, None),
    {
        self.list_table(table)
    }

    /// The invocation that creates a new user-defined chain in the table.
    pub fn new_chain(&self, table: &str, chain: &str) -> (r: Invocation)
        ensures
            r.cmd == self.cmd,
            views_of(r.args@) == spec_table_args(table@) + seq!["-N"@, chain@],
    {
        let mut args = table_args(table);
        push_arg(&mut args, "-N");
        push_arg(&mut args, chain);
        proof {
            assert(views_of(args@) =~~= spec_table_args(table@) + seq!["-N"@, chain@]);
        }
        Invocation { cmd: self.cmd, args }
    }

    /// The invocation that flushes (deletes all rules of) one chain of the
    /// table.
    pub fn flush_chain(&self, table: &str, chain: &str) -> (r: Invocation)
        ensures
            r.cmd == self.cmd,
            views_of(r.args@) == spec_table_args(table@) + seq!["-F"@, chain@],
    {
        let mut args = table_args(table);
        push_arg(&mut args, "-F");
        push_arg(&mut args, chain);
        proof {
            assert(views_of(args@) =~~= spec_table_args(table@) + seq!["-F"@, chain@]);
        }
        Invocation { cmd: self.cmd, args }
    }

    /// The invocation that renames a chain of the table.
    pub fn rename_chain(&self, table: &str, old_chain: &str, new_chain: &str) -> (r: Invocation)
        ensures
            r.cmd == self.cmd,
            views_of(r.args@) == spec_table_args(table@) + seq!["-E"@, old_chain@, new_chain@],
    {
        let mut args = table_args(table);
        push_arg(&mut args, "-E");
        push_arg(&mut args, old_chain);
        push_arg(&mut args, new_chain);
        proof {
            assert(views_of(args@) =~~= spec_table_args(table@) + seq![
                "-E"@,
                old_chain@,
                new_chain@,
            ]);
        }
        Invocation { cmd: self.cmd, args }
    }

    /// The invocation that deletes a user-defined chain of the table.
    pub fn delete_chain(&self, table: &str, chain: &str) -> (r: Invocation)
        ensures
            r.cmd == self.cmd,
            views_of(r.args@) == spec_table_args(table@) + seq!["-X"@, chain@],
    {
        let mut args = table_args(table);
        push_arg(&mut args, "-X");
        push_arg(&mut args, chain);
        proof {
            assert(views_of(args@) =~~= spec_table_args(table@) + seq!["-X"@, chain@]);
        }
        Invocation { cmd: self.cmd, args }
    }

    /// The invocation that flushes every chain of the table.
    pub fn flush_table(&self, table: &str) -> (r: Invocation)
        ensures
            r.cmd == self.cmd,
            views_of(r.args@) == spec_table_args(table@) + seq!["-F"@],
    {
        let mut args = table_args(table);
        push_arg(&mut args, "-F");
        proof {
            assert(views_of(args@) =~~= spec_table_args(table@) + seq!["-F"@]);
        }
        Invocation { cmd: self.cmd, args }
    }
}

/// The lines of a captured listing, framing whitespace removed.
pub open spec fn spec_lines(s: Seq<char>) -> Seq<Seq<char>> {
    split_char(spec_trim(s), '\n')
}

/// Splits a captured listing into its lines, as the rules of the listed
/// table or chain.
pub fn parse_list(listing: &str) -> (r: Vec<String>)
    ensures
        views_of(r@) == spec_lines(listing@),
{
    let t = trim_str(listing);
    split_str(t.as_str(), '\n')
}

/// The chain name that one listing line declares: the second field of a line
/// whose first field marks a policy (`-P`) or a new chain (`-N`).
pub open spec fn line_chain_name(line: Seq<char>) -> Option<Seq<char>> {
    let f = split_char(line, ' ');
    if f.len() > 1 && (f[0] == "-P"@ || f[0] == "-N"@) {
        Some(f[1])
    } else {
        None
    }
}

/// The chain names that a sequence of listing lines declares, in order.
pub open spec fn chain_names(lines: Seq<Seq<char>>) -> Seq<Seq<char>>
    decreases lines.len(),
{
    if lines.len() == 0 {
        Seq::empty()
    } else {
        let pre = chain_names(lines.drop_last());
        match line_chain_name(lines.last()) {
            Some(n) => pre.push(n),
            None => pre,
        }
    }
}

fn str_eq(a: &str, b: &str) -> (r: bool)
    ensures
        r == (a@ == b@),
{
    let n = a.unicode_len();
    if n != b.unicode_len() {
        return false;
    }
    let mut k: usize = 0;
    while k < n
        invariant
            k <= n,
            n == a@.len(),
            n == b@.len(),
            forall|m: int| 0 <= m < k ==> a@[m] == b@[m],
        decreases n - k,
    {
        if a.get_char(k) != b.get_char(k) {
            return false;
        }
        k += 1;
    }
    proof {
        assert(a@ =~= b@);
    }
    true
}

/// Reads the chain names out of a captured full listing: one name for each
/// policy or chain-declaration line, in listing order.
pub fn parse_chain_names(listing: &str) -> (r: Vec<String>)
    ensures
        views_of(r@) == chain_names(spec_lines(listing@)),
{
    let lines = parse_list(listing);
    let ghost lv = views_of(lines@);
    let mut out: Vec<String> = Vec::new();
    let mut i: usize = 0;
    while i < lines.len()
        invariant
            i <= lines.len(),
            lv == views_of(lines@),
            lv == spec_lines(listing@),
            views_of(out@) == chain_names(lv.take(i as int)),
        decreases lines.len() - i,
    {
        let fields = split_str(lines[i].as_str(), ' ');
        proof {
            assert(lv.take(i as int + 1).drop_last() =~= lv.take(i as int));
            assert(lv.take(i as int + 1).last() == lv[i as int]);
            assert(views_of(fields@) == split_char(lv[i as int], ' '));
        }
        if fields.len() > 1 && (str_eq(fields[0].as_str(), "-P") || str_eq(
            fields[0].as_str(),
            "-N",
        )) {
            let name = fields[1].clone();
            proof {
                lemma_views_of_push(out@, name);
                assert(line_chain_name(lv[i as int]) == Some(fields@[1]@));
            }
            out.push(name);
            proof {
                assert(views_of(out@) =~~= chain_names(lv.take(i as int + 1)));
            }
        } else {
            proof {
                assert(line_chain_name(lv[i as int]) is None);
                assert(views_of(out@) =~~= chain_names(lv.take(i as int + 1)));
            }
        }
        i += 1;
    }
    proof {
        assert(lv.take(lines@.len() as int) =~= lv);
    }
    out
}

} // verus!
