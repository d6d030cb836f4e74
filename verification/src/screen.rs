//! What the configuration editor shows: the table of the tunnels and the list of actions.
use vstd::prelude::*;
use vstd::string::StringExecFns;

use crate::config::{AppConfig, AppMode, ConfigView, Protocol, TunnelConfig, TunnelView};
use crate::number::to_decimal;
use crate::text::chars_of;

verus! {

/// The heads of the columns.
pub const TABLE_HEAD: &'static str =
    "No.  Name               Proto    State      Remote target            Local listen";

/// The line under the heads of the columns.
pub const TABLE_RULE: &'static str =
    "---------------------------------------------------------------------------------------";

/// `s` with spaces behind it, so that it takes `width` columns at least.
pub open spec fn padded(s: Seq<char>, width: nat) -> Seq<char> {
    s + Seq::new((if s.len() < width { width - s.len() } else { 0 }) as nat, |i: int| ' ')
}

/// How it is written whether something is on.
pub open spec fn switch_text(on: bool) -> Seq<char> {
    if on {
        "enabled"@
    } else {
        "disabled"@
    }
}

/// How it is written which way traffic is forwarded.
pub open spec fn mode_text(mode: AppMode) -> Seq<char> {
    match mode {
        AppMode::Socket => "socket listeners"@,
        AppMode::Nft => "nftables rules"@,
    }
}

/// The line of the table for the tunnel at `index`.
pub open spec fn row(index: int, t: TunnelView) -> Seq<char> {
    padded(crate::number::decimal((index + 1) as nat), 4) + " "@ + padded(t.name, 18) + " "@
        + padded(t.protocol.text(), 8) + " "@ + padded(switch_text(t.enabled), 10) + " "@
        + padded(t.target, 24) + " "@ + t.listen
}

/// The lines of the table, one for each tunnel.
pub open spec fn rows(tunnels: Seq<TunnelView>) -> Seq<Seq<char>> {
    if tunnels.len() == 0 {
        seq!["(no tunnels configured)"@]
    } else {
        Seq::new(tunnels.len(), |i: int| row(i, tunnels[i]))
    }
}

/// How many tunnels there are, and how many of them are enabled and disabled.
pub open spec fn tally(tunnels: Seq<TunnelView>) -> Seq<char> {
    let on = tunnels.filter(|t: TunnelView| t.enabled).len();
    "Tunnels: "@ + crate::number::decimal(tunnels.len()) + " total, "@ + crate::number::decimal(on)
        + " enabled, "@ + crate::number::decimal((tunnels.len() - on) as nat) + " disabled"@
}

/// The lines above the table.
pub open spec fn heading(path: Seq<char>, config: ConfigView) -> Seq<Seq<char>> {
    seq![
        "Config editor"@,
        "File: "@ + path,
        tally(config.tunnels),
        "Daemon log file: "@ + switch_text(config.daemon_log),
        ""@,
        "Forwarding mode: "@ + mode_text(config.mode),
        TABLE_HEAD@,
        TABLE_RULE@,
    ]
}

/// The lines below the table.
pub open spec fn actions() -> Seq<Seq<char>> {
    seq![
        ""@,
        "Actions:"@,
        "  a = add tunnel"@,
        "  e = edit tunnel"@,
        "  t = toggle enabled/disabled"@,
        "  d = delete tunnel"@,
        "  m = toggle forwarding mode (socket/nft)"@,
        "  l = toggle daemon log file"@,
        "  s = save and exit"@,
        "  q = quit"@,
        ""@,
    ]
}

/// All lines that are shown before an action is asked for.
pub open spec fn screen(path: Seq<char>, config: ConfigView) -> Seq<Seq<char>> {
    heading(path, config) + rows(config.tunnels) + actions()
}

/// Every tunnel is counted once: as enabled or as disabled.
pub proof fn tally_adds_up(tunnels: Seq<TunnelView>)
    ensures
        tunnels.filter(|t: TunnelView| t.enabled).len() + tunnels.filter(
            |t: TunnelView| !t.enabled,
        ).len() == tunnels.len(),
    decreases tunnels.len(),
{
    reveal(Seq::filter);
    if tunnels.len() > 0 {
        tally_adds_up(tunnels.drop_last());
    }
}

/// Adds spaces to `s` until it takes `width` columns.
pub fn pad(s: &str, width: usize) -> (r: String)
    ensures
        r@ == padded(s@, width as nat),
{
    let mut n: usize = chars_of(s).len();
    let mut r = s.to_owned();
    let ghost start = n;
    proof {
        reveal_strlit(" ");
    }
    assert(r@ =~= s@ + Seq::new(0, |i: int| ' '));
    while n < width
        invariant
            start == s@.len(),
            start <= n,
            n <= width || n == start,
            " "@ =~= seq![' '],
            r@ == s@ + Seq::new((n - start) as nat, |i: int| ' '),
        decreases width - n,
    {
        r.append(" ");
        n = n + 1;
        assert(r@ =~= s@ + Seq::new((n - start) as nat, |i: int| ' '));
    }
    assert(r@ =~= padded(s@, width as nat));
    r
}

fn switch_label(on: bool) -> (r: &'static str)
    ensures
        r@ == switch_text(on),
{
    if on {
        "enabled"
    } else {
        "disabled"
    }
}

fn mode_label(mode: AppMode) -> (r: &'static str)
    ensures
        r@ == mode_text(mode),
{
    match mode {
        AppMode::Socket => "socket listeners",
        AppMode::Nft => "nftables rules",
    }
}

/// Writes the line of the table for the tunnel at `index`.
pub fn render_row(index: usize, tunnel: &TunnelConfig) -> (r: String)
    ensures
        r@ == row(index as int, tunnel@),
{
    let number: u128 = index as u128 + 1;
    pad(to_decimal(number).as_str(), 4).concat(" ").concat(
        pad(tunnel.name.as_str(), 18).as_str(),
    ).concat(" ").concat(pad(tunnel.protocol.label(), 8).as_str()).concat(" ").concat(
        pad(switch_label(tunnel.enabled), 10).as_str(),
    ).concat(" ").concat(pad(tunnel.target.as_str(), 24).as_str()).concat(" ").concat(
        tunnel.listen.as_str(),
    )
}

fn render_tally(config: &AppConfig) -> (r: String)
    ensures
        r@ == tally(config@.tunnels),
{
    let total: usize = config.tunnels.len();
    let on: usize = config.enabled_tunnels().len();
    proof {
        tally_adds_up(config@.tunnels);
        let enabled = |t: TunnelView| t.enabled;
        assert(config@.tunnels.filter(enabled).len() == on);
    }
    "Tunnels: ".to_owned().concat(to_decimal(total as u128).as_str()).concat(" total, ").concat(
        to_decimal(on as u128).as_str(),
    ).concat(" enabled, ").concat(to_decimal((total - on) as u128).as_str()).concat(" disabled")
}

/// Writes all lines that are shown before an action is asked for; `path` is the file that is
/// edited.
pub fn render_tunnels(path: &str, config: &AppConfig) -> (r: Vec<String>)
    ensures
        crate::text::texts(r@) == screen(path@, config@),
{
    let mut r: Vec<String> = Vec::new();
    r.push("Config editor".to_owned());
    r.push("File: ".to_owned().concat(path));
    r.push(render_tally(config));
    r.push("Daemon log file: ".to_owned().concat(switch_label(config.daemon_log)));
    r.push("".to_owned());
    r.push("Forwarding mode: ".to_owned().concat(mode_label(config.mode)));
    r.push(TABLE_HEAD.to_owned());
    r.push(TABLE_RULE.to_owned());
    let ghost top = heading(path@, config@);
    assert(crate::text::texts(r@) =~= top);
    let ghost all = config@.tunnels;
    if config.tunnels.len() == 0 {
        r.push("(no tunnels configured)".to_owned());
        assert(crate::text::texts(r@) =~= top + rows(all));
    } else {
        let mut i: usize = 0;
        assert(rows(all).take(0) =~= seq![]);
        while i < config.tunnels.len()
            invariant
                i <= config.tunnels.len(),
                config.tunnels.len() > 0,
                all == config@.tunnels,
                crate::text::texts(r@) == top + rows(all).take(i as int),
            decreases config.tunnels.len() - i,
        {
            let ghost before = r@;
            let line = render_row(i, &config.tunnels[i]);
            r.push(line);
            assert(crate::text::texts(r@) =~= crate::text::texts(before).push(line@));
            assert(rows(all).take(i + 1) =~= rows(all).take(i as int).push(
                row(i as int, all[i as int]),
            ));
            i = i + 1;
        }
        assert(rows(all).take(i as int) =~= rows(all));
    }
    let ghost before = r@;
    r.push("".to_owned());
    r.push("Actions:".to_owned());
    r.push("  a = add tunnel".to_owned());
    r.push("  e = edit tunnel".to_owned());
    r.push("  t = toggle enabled/disabled".to_owned());
    r.push("  d = delete tunnel".to_owned());
    r.push("  m = toggle forwarding mode (socket/nft)".to_owned());
    r.push("  l = toggle daemon log file".to_owned());
    r.push("  s = save and exit".to_owned());
    r.push("  q = quit".to_owned());
    r.push("".to_owned());
    assert(crate::text::texts(r@) =~= crate::text::texts(before) + actions());
    r
}

/// Padding adds spaces at the end, just as many as are missing; what is wide enough stays as it is.
pub proof fn padding_fills_the_column(s: Seq<char>, width: nat)
    ensures
        padded(s, width).len() == (if s.len() < width {
            width
        } else {
            s.len()
        }),
        padded(s, width).take(s.len() as int) == s,
        forall|i: int| s.len() <= i < padded(s, width).len() ==> padded(s, width)[i] == ' ',
{
    assert(padded(s, width).take(s.len() as int) =~= s);
}

/// The line of a tunnel shows its number, counted from 1, its name, protocol and state, then where
/// it leads and where it listens.
pub proof fn row_shows_the_tunnel(index: int, t: TunnelView)
    requires
        0 <= index,
    ensures
        row(index, t) == padded(crate::number::decimal((index + 1) as nat), 4) + " "@ + padded(
            t.name,
            18,
        ) + " "@ + padded(
            match t.protocol {
                Protocol::Tcp => "tcp"@,
                Protocol::Udp => "udp"@,
                Protocol::Both => "both"@,
            },
            8,
        ) + " "@ + padded(
            if t.enabled {
                "enabled"@
            } else {
                "disabled"@
            },
            10,
        ) + " "@ + padded(t.target, 24) + " "@ + t.listen,
{
}

/// The screen has one line for each tunnel, in order, between a heading of eight lines and the list
/// of actions; without tunnels it says so.
pub proof fn screen_shows_every_tunnel(path: Seq<char>, config: ConfigView, i: int)
    ensures
        ({
            let lines = screen(path, config);
            let n = config.tunnels.len();
            &&& n > 0 ==> lines.len() == n + 19
            &&& n == 0 ==> lines.len() == 20 && lines[8] == "(no tunnels configured)"@
            &&& 0 <= i < n ==> lines[8 + i] == row(i, config.tunnels[i])
            &&& lines[0] == "Config editor"@
            &&& lines[1] == "File: "@ + path
            &&& lines[3] == "Daemon log file: "@ + (if config.daemon_log {
                "enabled"@
            } else {
                "disabled"@
            })
            &&& lines[4] == ""@
            &&& lines[5] == "Forwarding mode: "@ + (match config.mode {
                AppMode::Socket => "socket listeners"@,
                AppMode::Nft => "nftables rules"@,
            })
            &&& lines[6] == TABLE_HEAD@
            &&& lines[7] == TABLE_RULE@
            &&& lines.skip(lines.len() - 11) == actions()
        }),
{
    let lines = screen(path, config);
    assert(lines.skip(lines.len() - 11) =~= actions());
}

/// The screen counts the tunnels: all of them, those that are enabled, and those that are not.
pub proof fn screen_counts_the_tunnels(path: Seq<char>, config: ConfigView)
    ensures
        screen(path, config)[2] == "Tunnels: "@ + crate::number::decimal(config.tunnels.len())
            + " total, "@ + crate::number::decimal(
            config.tunnels.filter(|t: TunnelView| t.enabled).len(),
        ) + " enabled, "@ + crate::number::decimal(
            config.tunnels.filter(|t: TunnelView| !t.enabled).len(),
        ) + " disabled"@,
{
    tally_adds_up(config.tunnels);
}

/// The list of actions names every letter that the menu knows.
pub proof fn actions_are_listed()
    ensures
        actions() == seq![
            ""@,
            "Actions:"@,
            "  a = add tunnel"@,
            "  e = edit tunnel"@,
            "  t = toggle enabled/disabled"@,
            "  d = delete tunnel"@,
            "  m = toggle forwarding mode (socket/nft)"@,
            "  l = toggle daemon log file"@,
            "  s = save and exit"@,
            "  q = quit"@,
            ""@,
        ],
{
}

} // verus!
