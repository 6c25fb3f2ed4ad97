use vstd::prelude::*;

verus! {

/// The decimal digit `d` (below ten) as a character.
pub open spec fn digit_char(d: nat) -> char {
    seq!['0', '1', '2', '3', '4', '5', '6', '7', '8', '9'][d as int]
}

/// The decimal digits of `n`, most significant first, without leading zeros.
pub open spec fn decimal(n: nat) -> Seq<char>
    decreases n,
{
    if n < 10 {
        seq![digit_char(n)]
    } else {
        decimal(n / 10).push(digit_char(n % 10))
    }
}

/// `s` preceded by as many spaces as it takes to make it `width` long.
pub open spec fn padded(s: Seq<char>, width: nat) -> Seq<char> {
    if s.len() >= width {
        s
    } else {
        Seq::new((width - s.len()) as nat, |i: int| ' ') + s
    }
}

fn digit_text(d: u64) -> (r: &'static str)
    requires
        d < 10,
    ensures
        r@ == seq![digit_char(d as nat)],
{
    if d == 0 {
        proof { reveal_strlit("0"); }
        "0"
    } else if d == 1 {
        proof { reveal_strlit("1"); }
        "1"
    } else if d == 2 {
        proof { reveal_strlit("2"); }
        "2"
    } else if d == 3 {
        proof { reveal_strlit("3"); }
        "3"
    } else if d == 4 {
        proof { reveal_strlit("4"); }
        "4"
    } else if d == 5 {
        proof { reveal_strlit("5"); }
        "5"
    } else if d == 6 {
        proof { reveal_strlit("6"); }
        "6"
    } else if d == 7 {
        proof { reveal_strlit("7"); }
        "7"
    } else if d == 8 {
        proof { reveal_strlit("8"); }
        "8"
    } else {
        proof { reveal_strlit("9"); }
        "9"
    }
}

/// Appends the decimal digits of `n` to `out`.
pub fn write_decimal(n: u64, out: &mut String)
    ensures
        final(out)@ == old(out)@ + decimal(n as nat),
    decreases n,
{
    if n >= 10 {
        write_decimal(n / 10, out);
    }
    out.append(digit_text(n % 10));
    assert(decimal(n as nat) =~= if n < 10 {
        seq![digit_char(n as nat)]
    } else {
        decimal((n / 10) as nat).push(digit_char((n % 10) as nat))
    });
}

/// Appends the decimal digits of `n` to `out`, right-aligned in `width`
/// columns.
pub fn write_padded_decimal(n: u64, width: usize, out: &mut String)
    ensures
        final(out)@ == old(out)@ + padded(decimal(n as nat), width as nat),
{
    let mut digits = String::new();
    write_decimal(n, &mut digits);
    assert(digits@ =~= decimal(n as nat));
    let len = digits.as_str().unicode_len();
    let ghost start = out@;
    if len < width {
        let mut i: usize = len;
        while i < width
            invariant
                len <= i <= width,
                out@ == start + Seq::new((i - len) as nat, |j: int| ' '),
            decreases width - i,
        {
            out.append(" ");
            proof { reveal_strlit(" "); }
            assert(out@ =~= start + Seq::new((i + 1 - len) as nat, |j: int| ' '));
            i = i + 1;
        }
    }
    out.append(digits.as_str());
    assert(out@ =~= start + padded(decimal(n as nat), width as nat));
}

/// What a backtrace says of one symbol of a frame: its name and the source
/// file and line it comes from, where known.
#[derive(Debug)]
pub struct SymbolInfo {
    pub name: Option<String>,
    pub file: Option<String>,
    pub line: Option<u32>,
}

/// The text of one symbol of frame number `k`: `"{k:4}: <name>"` where the
/// name is known, then `"\n             at <file>:<line>"` where both are.
pub open spec fn symbol_text(k: nat, s: SymbolInfo) -> Seq<char> {
    (match s.name {
        Some(name) => padded(decimal(k), 4) + ": "@ + name@,
        None => Seq::empty(),
    }) + (match (s.file, s.line) {
        (Some(file), Some(line)) => "\n             at "@ + file@ + ":"@ + decimal(line as nat),
        _ => Seq::empty(),
    })
}

/// The texts of the symbols of frame number `k`, one after the other.
pub open spec fn symbols_text(k: nat, symbols: Seq<SymbolInfo>) -> Seq<char>
    decreases symbols.len(),
{
    if symbols.len() == 0 {
        Seq::empty()
    } else {
        symbols_text(k, symbols.drop_last()) + symbol_text(k, symbols.last())
    }
}

/// The text of a whole backtrace: frame after frame, each but the first
/// starting on a new line.
pub open spec fn frames_text(frames: Seq<Seq<SymbolInfo>>) -> Seq<char>
    decreases frames.len(),
{
    if frames.len() == 0 {
        Seq::empty()
    } else {
        let k = (frames.len() - 1) as nat;
        frames_text(frames.drop_last()) + (if k > 0 {
            "\n"@
        } else {
            Seq::empty()
        }) + symbols_text(k, frames.last())
    }
}

fn write_symbol(k: u64, symbol: &SymbolInfo, out: &mut String)
    ensures
        final(out)@ == old(out)@ + symbol_text(k as nat, *symbol),
{
    let ghost start = out@;
    match &symbol.name {
        Some(name) => {
            write_padded_decimal(k, 4, out);
            out.append(": ");
            out.append(name.as_str());
        },
        None => {},
    }
    let ghost mid = out@;
    match (&symbol.file, symbol.line) {
        (Some(file), Some(line)) => {
            out.append("\n             at ");
            out.append(file.as_str());
            out.append(":");
            write_decimal(line as u64, out);
        },
        _ => {},
    }
    assert(out@ =~= start + symbol_text(k as nat, *symbol));
}

/// Renders captured frames, numbering them from zero.
pub fn format_frames(frames: &Vec<Vec<SymbolInfo>>) -> (r: String)
    ensures
        r@ == frames_text(frames@.map_values(|f: Vec<SymbolInfo>| f@)),
{
    let ghost all = frames@.map_values(|f: Vec<SymbolInfo>| f@);
    let mut out = String::new();
    let mut i: usize = 0;
    while i < frames.len()
        invariant
            0 <= i <= frames@.len(),
            all == frames@.map_values(|f: Vec<SymbolInfo>| f@),
            out@ == frames_text(all.subrange(0, i as int)),
        decreases frames@.len() - i,
    {
        let ghost before = out@;
        if i > 0 {
            out.append("\n");
        }
        let ghost head = out@;
        let symbols = &frames[i];
        let mut j: usize = 0;
        while j < symbols.len()
            invariant
                0 <= j <= symbols@.len(),
                symbols@ == all[i as int],
                out@ == head + symbols_text(i as nat, symbols@.subrange(0, j as int)),
            decreases symbols@.len() - j,
        {
            write_symbol(i as u64, &symbols[j], &mut out);
            assert(symbols@.subrange(0, j + 1).drop_last() =~= symbols@.subrange(0, j as int));
            j = j + 1;
        }
        assert(symbols@.subrange(0, symbols@.len() as int) =~= symbols@);
        assert(all.subrange(0, i + 1).drop_last() =~= all.subrange(0, i as int));
        i = i + 1;
    }
    assert(all.subrange(0, frames@.len() as int) =~= all);
    out
}

/// Relies on `backtrace::Backtrace::new`, which captures the call stack at
/// its call site and resolves each frame's symbols; their names, files and
/// lines are copied out as they are. What they are depends on the program
/// and the machine, so nothing is promised of them.
#[verifier::external_body]
fn capture_frames() -> Vec<Vec<SymbolInfo>> {
    let captured = backtrace::Backtrace::new();
    captured.frames().iter().map(|frame| frame.symbols().iter().map(|symbol| SymbolInfo {
        name: symbol.name().map(|name| name.to_string()),
        file: symbol.filename().map(|file| file.display().to_string()),
        line: symbol.lineno(),
    }).collect()).collect()
}

/// Whether backtraces are to be captured, given the value of the switch that
/// turns them on (`RUST_BACKTRACE`), if it is set: only the exact value `"1"`
/// turns them on.
pub fn backtrace_switch(value: Option<&str>) -> (r: bool)
    ensures
        r == (value matches Some(v) && v@ == "1"@),
{
    proof { reveal_strlit("1"); }
    match value {
        Some(v) => {
            let on = v.unicode_len() == 1 && v.get_char(0) == '1';
            assert(on ==> v@ =~= "1"@);
            on
        },
        None => false,
    }
}

/// `backtrace` is what a capture gives when `enabled` says whether to
/// capture: the text of some frames, or nothing.
pub open spec fn is_capture(backtrace: Option<Seq<char>>, enabled: bool) -> bool {
    match backtrace {
        Some(text) => enabled && exists|frames: Seq<Seq<SymbolInfo>>| text == frames_text(frames),
        None => !enabled,
    }
}

/// The current call stack as text, when `enabled`; `None` otherwise.
/// Whether capture is enabled is the caller's policy (typically an
/// environment switch read at the program's edge).
pub fn format_backtrace(enabled: bool) -> (r: Option<String>)
    ensures
        is_capture(
            match r {
                Some(text) => Some(text@),
                None => None,
            },
            enabled,
        ),
{
    if enabled {
        let frames = capture_frames();
        Some(format_frames(&frames))
    } else {
        None
    }
}

} // verus!
