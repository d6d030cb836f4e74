//! Telling the daemon's own process from others: by the process id on file, and by the command
//! line of the process with that id.
use vstd::prelude::*;
use vstd::string::StringExecFns;

use crate::number::{parse_i32, to_decimal};
use crate::text::{same_bytes, trim};

verus! {

/// The argument that the daemon's process is started with.
pub const DAEMON_WORKER: &'static str = "__daemon_worker";

/// The text of a string in UTF-8.
pub open spec fn bytes(s: Seq<char>) -> Seq<u8> {
    vstd::utf8::encode_utf8(s)
}

/// The pieces of `s` between the occurrences of `sep`, without the empty ones.
pub open spec fn words(s: Seq<u8>, sep: u8) -> Seq<Seq<u8>> {
    crate::text::split(s, sep).filter(|p: Seq<u8>| p.len() > 0)
}

/// The steps of a path: what stands between slashes, without those that lead nowhere.
pub open spec fn steps(path: Seq<u8>) -> Seq<Seq<u8>> {
    words(path, 0x2f).filter(|p: Seq<u8>| p != seq![0x2eu8])
}

/// The last step of a path, where it leads to a name.
pub open spec fn file_name(path: Seq<u8>) -> Option<Seq<u8>> {
    let parts = steps(path);
    if parts.len() == 0 || parts.last() == seq![0x2eu8, 0x2eu8] {
        None
    } else {
        Some(parts.last())
    }
}

/// Whether a command line, with a zero byte behind each argument, is that of a daemon started from
/// a program with the name `binary_name`.
pub open spec fn worker_cmdline(cmdline: Seq<u8>, binary_name: Seq<char>) -> bool {
    let args = words(cmdline, 0);
    &&& args.len() >= 2
    &&& file_name(args[0]) == Some(bytes(binary_name))
    &&& args[1] == bytes(DAEMON_WORKER@)
}

fn words_of(s: &[u8], sep: u8) -> (r: Vec<Vec<u8>>)
    ensures
        crate::text::pieces(r@) == words(s@, sep),
{
    let mut r: Vec<Vec<u8>> = Vec::new();
    let mut word: Vec<u8> = Vec::new();
    let mut start: usize = 0;
    let mut i: usize = 0;
    let ghost some = |p: Seq<u8>| p.len() > 0;
    assert(s@.skip(0) =~= s@);
    assert(crate::text::pieces(r@) + crate::text::split(s@, sep).filter(some) =~= words(s@, sep));
    while i < s.len()
        invariant
            start <= i <= s.len(),
            some == (|p: Seq<u8>| p.len() > 0),
            word@ == s@.subrange(start as int, i as int),
            forall|j: int| start <= j < i ==> s@[j] != sep,
            crate::text::pieces(r@) + crate::text::split(s@.skip(start as int), sep).filter(some)
                == words(s@, sep),
        decreases s.len() - i,
    {
        let b: u8 = s[i];
        let ghost rest = s@.skip(start as int);
        let ghost before = r@;
        if b == sep {
            let ghost later = crate::text::split(s@.skip(i + 1), sep);
            proof {
                crate::text::lemma_find_is(rest, sep, i - start);
                assert(rest.take(i - start) =~= word@);
                assert(rest.skip(i - start + 1) =~= s@.skip(i + 1));
                lemma_filter_first(word@, later, some);
            }
            if word.len() > 0 {
                let ghost full = word@;
                r.push(word);
                assert(crate::text::pieces(r@) =~= crate::text::pieces(before).push(full));
                assert(crate::text::pieces(before) + (seq![full] + later.filter(some))
                    =~= crate::text::pieces(r@) + later.filter(some));
            }
            word = Vec::new();
            start = i + 1;
        } else {
            word.push(b);
        }
        i = i + 1;
        assert(word@ =~= s@.subrange(start as int, i as int));
    }
    let ghost rest = s@.skip(start as int);
    let ghost before = r@;
    proof {
        crate::text::lemma_find_is(rest, sep, rest.len() as int);
        assert(rest =~= word@);
        assert(crate::text::split(rest, sep) =~= seq![word@] + Seq::<Seq<u8>>::empty());
        lemma_filter_first(word@, Seq::<Seq<u8>>::empty(), some);
        assert(Seq::<Seq<u8>>::empty().filter(some) =~= Seq::<Seq<u8>>::empty()) by {
            reveal(Seq::filter);
        }
    }
    if word.len() > 0 {
        let ghost full = word@;
        r.push(word);
        assert(crate::text::pieces(r@) =~= crate::text::pieces(before) + seq![full]);
    } else {
        assert(crate::text::pieces(r@) =~= crate::text::pieces(before)
            + Seq::<Seq<u8>>::empty());
    }
    r
}

/// What a filter keeps of a list with one more item at its start.
proof fn lemma_filter_first<T>(first: T, rest: Seq<T>, keep: spec_fn(T) -> bool)
    ensures
        (seq![first] + rest).filter(keep) == (if keep(first) {
            seq![first] + rest.filter(keep)
        } else {
            rest.filter(keep)
        }),
{
    let one = seq![first];
    let none = Seq::<T>::empty();
    Seq::<T>::filter_distributes_over_add(one, rest, keep);
    reveal(Seq::filter);
    assert(one.drop_last() =~= none);
    assert(none.filter(keep) =~= none);
    assert(one.filter(keep) =~= (if keep(first) {
        one
    } else {
        none
    }));
    assert(none + rest.filter(keep) =~= rest.filter(keep));
}

/// Whether the last step of the path `program` is the name `binary_name`.
pub fn daemon_program_name(program: &[u8], binary_name: &str) -> (r: bool)
    ensures
        r == (file_name(program@) == Some(bytes(binary_name@))),
{
    let parts = words_of(program, 0x2f);
    let ghost all = words(program@, 0x2f);
    let ghost leads = |p: Seq<u8>| p != seq![0x2eu8];
    let mut last: Option<usize> = None;
    let mut i: usize = 0;
    assert(all.take(0).filter(leads) =~= seq![]) by {
        reveal(Seq::filter);
        assert(all.take(0) =~= seq![]);
    }
    while i < parts.len()
        invariant
            i <= parts.len(),
            all == crate::text::pieces(parts@),
            leads == (|p: Seq<u8>| p != seq![0x2eu8]),
            match last {
                None => all.take(i as int).filter(leads).len() == 0,
                Some(k) => k < i && all.take(i as int).filter(leads).len() > 0 && all.take(
                    i as int,
                ).filter(leads).last() == all[k as int],
            },
        decreases parts.len() - i,
    {
        let part = &parts[i];
        let dot = part.len() == 1 && part[0] == 0x2e;
        proof {
            reveal(Seq::filter);
            assert(all.take(i + 1).drop_last() =~= all.take(i as int));
            assert(all.take(i + 1).last() == part@);
            assert(dot == (part@ =~= seq![0x2eu8]));
        }
        if !dot {
            last = Some(i);
        }
        i = i + 1;
    }
    assert(all.take(i as int) =~= all);
    match last {
        None => false,
        Some(k) => {
            let name = &parts[k];
            let up = name.len() == 2 && name[0] == 0x2e && name[1] == 0x2e;
            assert(up == (name@ =~= seq![0x2eu8, 0x2eu8]));
            !up && same_bytes(name.as_slice(), binary_name.as_bytes())
        },
    }
}

/// Whether a command line is that of a daemon started from a program with the name `binary_name`.
pub fn is_daemon_worker_cmdline(cmdline: &[u8], binary_name: &str) -> (r: bool)
    ensures
        r == worker_cmdline(cmdline@, binary_name@),
{
    let args = words_of(cmdline, 0);
    assert(crate::text::pieces(args@).len() == args@.len());
    if args.len() < 2 {
        return false;
    }
    assert(crate::text::pieces(args@)[0] == args@[0]@);
    assert(crate::text::pieces(args@)[1] == args@[1]@);
    daemon_program_name(args[0].as_slice(), binary_name) && same_bytes(
        args[1].as_slice(),
        DAEMON_WORKER.as_bytes(),
    )
}

/// Whether the process that is looked for is a daemon: it exists, and its command line is that of
/// one.
pub fn daemon_process_matches(cmdline: Option<&[u8]>, binary_name: &str) -> (r: bool)
    ensures
        r == (cmdline matches Some(c) && worker_cmdline(c@, binary_name@)),
{
    match cmdline {
        Some(c) => is_daemon_worker_cmdline(c, binary_name),
        None => false,
    }
}

/// The command line that a daemon is started with is recognised, whatever path leads to the
/// program.
pub proof fn own_worker_is_recognised(program: Seq<u8>, binary_name: Seq<char>)
    requires
        !program.contains(0),
        file_name(program) == Some(bytes(binary_name)),
    ensures
        worker_cmdline(
            program + seq![0u8] + bytes(DAEMON_WORKER@) + seq![0u8],
            binary_name,
        ),
{
    let worker = bytes(DAEMON_WORKER@);
    let none = Seq::<u8>::empty();
    let some = |p: Seq<u8>| p.len() > 0;
    let parts = seq![program, worker, none];
    let cmdline = program + seq![0u8] + worker + seq![0u8];
    reveal_strlit("__daemon_worker");
    vstd::utf8::is_ascii_chars_encode_utf8(DAEMON_WORKER@);
    assert(worker.len() == 15);
    assert forall|i: int| 0 <= i < parts.len() implies !(#[trigger] parts[i]).contains(0) by {
        if i == 1 {
            assert forall|j: int| 0 <= j < worker.len() implies worker[j] != 0 by {}
        }
    }
    assert(program.len() > 0) by {
        if program.len() == 0 {
            words_at_a_separator(program, 0x2f, none);
            assert(program =~= none);
            lemma_filter_keeps_all(
                Seq::<Seq<u8>>::empty(),
                |p: Seq<u8>| p != seq![0x2eu8],
            );
        }
    }
    let p1 = seq![worker, none];
    let p2 = seq![none];
    assert(parts.drop_first() =~= p1);
    assert(p1.drop_first() =~= p2);
    assert(crate::text::join(p2, 0u8) == none);
    assert(crate::text::join(p1, 0u8) =~= worker + seq![0u8]);
    assert(crate::text::join(parts, 0u8) =~= cmdline);
    crate::text::join_splits_back(parts, 0u8);
    assert(parts =~= seq![program] + p1);
    assert(p1 =~= seq![worker] + p2);
    assert(p2 =~= seq![none] + Seq::<Seq<u8>>::empty());
    lemma_filter_first(program, p1, some);
    lemma_filter_first(worker, p2, some);
    lemma_filter_first(none, Seq::<Seq<u8>>::empty(), some);
    assert(Seq::<Seq<u8>>::empty().filter(some) =~= Seq::<Seq<u8>>::empty()) by {
        reveal(Seq::filter);
    }
    assert(words(cmdline, 0) =~= seq![program, worker]);
}

/// What a file with a process id holds.
pub open spec fn pid_text(pid: nat) -> Seq<char> {
    crate::number::decimal(pid) + "\n"@
}

/// The process id that a file holds, or what is wrong with it. A file that does not exist holds
/// none.
pub open spec fn pid_on_file(content: Option<Seq<char>>) -> Result<Option<int>, Seq<char>> {
    match content {
        None => Ok(None),
        Some(text) => match crate::number::signed(
            crate::text::trimmed(text),
            0x8000_0000,
            0x7fff_ffff,
        ) {
            Ok(pid) => Ok(Some(pid)),
            Err(fault) => Err(
                "Invalid PID file contents: "@ + crate::number::int_fault_text(fault),
            ),
        },
    }
}

/// Writes what a file with the process id `pid` holds.
pub fn render_pid(pid: u32) -> (r: String)
    ensures
        r@ == pid_text(pid as nat),
{
    to_decimal(pid as u128).concat("\n")
}

/// Reads the process id from what a file holds.
pub fn read_pid(content: Option<&str>) -> (r: Result<Option<i32>, String>)
    ensures
        ({
            let on_file = pid_on_file(
                match content {
                    Some(text) => Some(text@),
                    None => None,
                },
            );
            match r {
                Ok(Some(pid)) => on_file == Ok::<Option<int>, Seq<char>>(Some(pid as int)),
                Ok(None) => on_file == Ok::<Option<int>, Seq<char>>(None),
                Err(error) => on_file == Err::<Option<int>, Seq<char>>(error@),
            }
        }),
{
    match content {
        None => Ok(None),
        Some(text) => match parse_i32(trim(text).as_str()) {
            Ok(pid) => Ok(Some(pid)),
            Err(fault) => Err(
                "Invalid PID file contents: ".to_owned().concat(fault.message()),
            ),
        },
    }
}

/// A process id that was written to a file is read back from it.
pub proof fn pid_reads_back(pid: nat)
    requires
        pid <= 0x7fff_ffff,
    ensures
        pid_on_file(Some(pid_text(pid))) == Ok::<Option<int>, Seq<char>>(Some(pid as int)),
{
    let d = crate::number::decimal(pid);
    let text = pid_text(pid);
    reveal_strlit("\n");
    crate::number::decimal_reads_back(pid);
    crate::number::scanned_is_value(d, 0x7fff_ffff);
    assert(crate::number::digit(d[0]));
    assert(crate::number::digit(d[d.len() - 1]));
    assert(text[0] == d[0]);
    assert(crate::text::trim_start_of(text) == text);
    assert(text.drop_last() =~= d);
    assert(crate::text::trim_end_of(d) == d);
    assert(crate::text::trimmed(text) == d);
}

/// The words of two texts with a separator between them are the words of the one, then those of the
/// other. A text without a separator is one word, unless it is empty.
pub proof fn words_at_a_separator(a: Seq<u8>, sep: u8, b: Seq<u8>)
    ensures
        words(a + seq![sep] + b, sep) == words(a, sep) + words(b, sep),
        !a.contains(sep) && a.len() > 0 ==> words(a, sep) == seq![a],
        words(Seq::<u8>::empty(), sep) == Seq::<Seq<u8>>::empty(),
{
    let some = |p: Seq<u8>| p.len() > 0;
    let none = Seq::<u8>::empty();
    let nothing = Seq::<Seq<u8>>::empty();
    crate::text::split_at_a_separator(a, sep, b);
    crate::text::split_at_a_separator(none, sep, b);
    Seq::<Seq<u8>>::filter_distributes_over_add(
        crate::text::split(a, sep),
        crate::text::split(b, sep),
        some,
    );
    assert(nothing.filter(some) =~= nothing) by {
        reveal(Seq::filter);
    }
    if !a.contains(sep) && a.len() > 0 {
        lemma_filter_first(a, nothing, some);
        assert(seq![a] + nothing =~= seq![a]);
    }
    lemma_filter_first(none, nothing, some);
    assert(seq![none] + nothing =~= seq![none]);
}

/// The last step of a path is what stands behind its last slash. Slashes and single dots at the end
/// do not count; a path that ends in two dots, or is empty, has none.
pub proof fn path_ends_in_its_name(dir: Seq<u8>, name: Seq<u8>)
    ensures
        ({
            let slash = seq![0x2fu8];
            let dot = seq![0x2eu8];
            let proper = name.len() > 0 && !name.contains(0x2f) && name != dot && name != dot + dot;
            &&& proper ==> file_name(name) == Some(name)
            &&& proper ==> file_name(dir + slash + name) == Some(name)
            &&& file_name(dir + slash) == file_name(dir)
            &&& file_name(dir + slash + dot) == file_name(dir)
            &&& file_name(dir + slash + (dot + dot)) is None
            &&& file_name(dot) is None
            &&& file_name(dot + dot) is None
            &&& file_name(Seq::<u8>::empty()) is None
        }),
{
    let none = Seq::<u8>::empty();
    let slash = seq![0x2fu8];
    let dot = seq![0x2eu8];
    let dots = dot + dot;
    assert(dots =~= seq![0x2eu8, 0x2eu8]);
    assert(dots != dot);
    assert(!dot.contains(0x2f) && !dots.contains(0x2f));
    assert(dir + slash + none =~= dir + slash);
    lemma_steps_concat(dir, name);
    lemma_steps_concat(dir, none);
    lemma_steps_concat(dir, dot);
    lemma_steps_concat(dir, dots);
    lemma_steps_of_word(name);
    lemma_steps_of_word(none);
    lemma_steps_of_word(dot);
    lemma_steps_of_word(dots);
    assert(steps(dir) + Seq::<Seq<u8>>::empty() =~= steps(dir));
    assert((steps(dir) + seq![dots]).last() == dots);
    assert((steps(dir) + seq![name]).last() == name);
}

proof fn lemma_steps_concat(dir: Seq<u8>, rest: Seq<u8>)
    ensures
        steps(dir + seq![0x2fu8] + rest) == steps(dir) + steps(rest),
{
    let leads = |p: Seq<u8>| p != seq![0x2eu8];
    words_at_a_separator(dir, 0x2f, rest);
    Seq::<Seq<u8>>::filter_distributes_over_add(words(dir, 0x2f), words(rest, 0x2f), leads);
}

proof fn lemma_steps_of_word(word: Seq<u8>)
    ensures
        !word.contains(0x2f) && word.len() > 0 && word != seq![0x2eu8] ==> steps(word)
            == seq![word],
        word == seq![0x2eu8] || word.len() == 0 ==> steps(word) == Seq::<Seq<u8>>::empty(),
{
    let leads = |p: Seq<u8>| p != seq![0x2eu8];
    let nothing = Seq::<Seq<u8>>::empty();
    lemma_filter_keeps_all(nothing, leads);
    words_at_a_separator(word, 0x2f, word);
    lemma_filter_first(word, nothing, leads);
    assert(seq![word] + nothing =~= seq![word]);
    if word.len() == 0 {
        assert(word =~= Seq::<u8>::empty());
    }
}

/// A command line is that of a daemon exactly where there are at least two arguments, the first one
/// ends in the name of the program, and the second one is the word for a worker. Nothing behind
/// them matters.
pub proof fn cmdline_is_judged_by_its_first_arguments(args: Seq<Seq<u8>>, binary_name: Seq<char>)
    requires
        forall|i: int|
            0 <= i < args.len() ==> (#[trigger] args[i]).len() > 0 && !args[i].contains(0),
    ensures
        worker_cmdline(crate::text::join(args.push(Seq::<u8>::empty()), 0u8), binary_name) <==> {
            &&& args.len() >= 2
            &&& file_name(args[0]) == Some(vstd::utf8::encode_utf8(binary_name))
            &&& args[1] == vstd::utf8::encode_utf8("__daemon_worker"@)
        },
{
    let none = Seq::<u8>::empty();
    let some = |p: Seq<u8>| p.len() > 0;
    let parts = args.push(none);
    assert forall|i: int| 0 <= i < parts.len() implies !(#[trigger] parts[i]).contains(0) by {
        if i < args.len() {
            assert(parts[i] == args[i]);
        }
    }
    crate::text::join_splits_back(parts, 0u8);
    lemma_filter_keeps_all(args, some);
    assert(parts.filter(some) =~= args) by {
        reveal(Seq::filter);
        assert(parts.drop_last() =~= args);
    }
}

proof fn lemma_filter_keeps_all<T>(s: Seq<T>, keep: spec_fn(T) -> bool)
    requires
        forall|i: int| 0 <= i < s.len() ==> keep(#[trigger] s[i]),
    ensures
        s.filter(keep) == s,
    decreases s.len(),
{
    reveal(Seq::filter);
    if s.len() > 0 {
        let before = s.drop_last();
        assert forall|i: int| 0 <= i < before.len() implies keep(#[trigger] before[i]) by {
            assert(before[i] == s[i]);
        }
        lemma_filter_keeps_all(before, keep);
        assert(keep(s[s.len() - 1]));
        assert(before.push(s.last()) =~= s);
    } else {
        assert(s.filter(keep) =~= s);
    }
}

/// A file holds a process id exactly where it holds a decimal number, with a sign or without, and
/// white space around it; a file that is missing holds none.
pub proof fn pid_file_holds_a_number(text: Seq<char>, n: nat)
    ensures
        pid_on_file(None) == Ok::<Option<int>, Seq<char>>(None),
        crate::text::trimmed(text) == crate::number::decimal(n) && n <= 0x7fff_ffff
            ==> pid_on_file(Some(text)) == Ok::<Option<int>, Seq<char>>(Some(n as int)),
        crate::text::trimmed(text) == "-"@ + crate::number::decimal(n) && n <= 0x8000_0000
            ==> pid_on_file(Some(text)) == Ok::<Option<int>, Seq<char>>(Some(-(n as int))),
        pid_on_file(Some(text)) matches Ok(pid) ==> pid is Some,
        pid_on_file(Some(text)) matches Err(error) ==> {
            ||| error == "Invalid PID file contents: "@ + "cannot parse integer from empty string"@
            ||| error == "Invalid PID file contents: "@ + "invalid digit found in string"@
            ||| error == "Invalid PID file contents: "@ + "number too large to fit in target type"@
            ||| error == "Invalid PID file contents: "@ + "number too small to fit in target type"@
        },
{
    crate::number::signed_numbers_read_back(n, 0x8000_0000, 0x7fff_ffff);
}

} // verus!
