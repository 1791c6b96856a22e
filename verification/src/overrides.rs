//! The override table: a small curated set of code points, mostly from the
//! Mathematical Alphanumeric Symbols range, that the pipeline consults before
//! the mapping store; where it has an entry, that entry wins.

use vstd::prelude::*;
use crate::chars::ascii_char;

verus! {

/// The override table as a function: the single ASCII character assigned to
/// a code point, or `None` where the table has no entry.
pub open spec fn override_entry(cp: u32) -> Option<char> {
    if cp == 0x1D400 {
        Some('A')
    } else if cp == 0x1D401 {
        Some('B')
    } else if cp == 0x1D402 {
        Some('C')
    } else if cp == 0x1D403 {
        Some('D')
    } else if cp == 0x1D404 {
        Some('E')
    } else if cp == 0x1D405 {
        Some('F')
    } else if cp == 0x1D406 {
        Some('G')
    } else if cp == 0x1D407 {
        Some('H')
    } else if cp == 0x1D408 {
        Some('I')
    } else if cp == 0x1D409 {
        Some('J')
    } else if cp == 0x1D40A {
        Some('K')
    } else if cp == 0x1D40B {
        Some('L')
    } else if cp == 0x1D40C {
        Some('M')
    } else if cp == 0x1D40D {
        Some('N')
    } else if cp == 0x1D40E {
        Some('O')
    } else if cp == 0x1D40F {
        Some('P')
    } else if cp == 0x1D410 {
        Some('Q')
    } else if cp == 0x1D411 {
        Some('R')
    } else if cp == 0x1D412 {
        Some('S')
    } else if cp == 0x1D413 {
        Some('T')
    } else if cp == 0x1D414 {
        Some('U')
    } else if cp == 0x1D415 {
        Some('V')
    } else if cp == 0x1D416 {
        Some('W')
    } else if cp == 0x1D417 {
        Some('X')
    } else if cp == 0x1D418 {
        Some('Y')
    } else if cp == 0x1D419 {
        Some('Z')
    } else if cp == 0x1D41A {
        Some('a')
    } else if cp == 0x1D41B {
        Some('b')
    } else if cp == 0x1D41C {
        Some('c')
    } else if cp == 0x1D41D {
        Some('d')
    } else if cp == 0x1D41E {
        Some('e')
    } else if cp == 0x1D41F {
        Some('f')
    } else if cp == 0x1D420 {
        Some('g')
    } else if cp == 0x1D421 {
        Some('h')
    } else if cp == 0x1D422 {
        Some('i')
    } else if cp == 0x1D423 {
        Some('j')
    } else if cp == 0x1D424 {
        Some('k')
    } else if cp == 0x1D425 {
        Some('l')
    } else if cp == 0x1D426 {
        Some('m')
    } else if cp == 0x1D427 {
        Some('n')
    } else if cp == 0x1D428 {
        Some('o')
    } else if cp == 0x1D429 {
        Some('p')
    } else if cp == 0x1D42A {
        Some('q')
    } else if cp == 0x1D42B {
        Some('r')
    } else if cp == 0x1D42C {
        Some('s')
    } else if cp == 0x1D42D {
        Some('t')
    } else if cp == 0x1D42E {
        Some('u')
    } else if cp == 0x1D42F {
        Some('v')
    } else if cp == 0x1D430 {
        Some('w')
    } else if cp == 0x1D431 {
        Some('x')
    } else if cp == 0x1D432 {
        Some('y')
    } else if cp == 0x1D433 {
        Some('z')
    } else if cp == 0x1D4D3 {
        Some('T')
    } else if cp == 0x1D4E3 {
        Some('t')
    } else if cp == 0x1D56D {
        Some('h')
    } else if cp == 0x1D54B {
        Some('T')
    } else if cp == 0x1D546 {
        Some('H')
    } else if cp == 0x1D53C {
        Some('E')
    } else if cp == 0x1D57F {
        Some('T')
    } else if cp == 0x1D57A {
        Some('H')
    } else if cp == 0x1D570 {
        Some('E')
    } else if cp == 0x1D7CF {
        Some('0')
    } else if cp == 0x1D7D0 {
        Some('1')
    } else if cp == 0x1D7D1 {
        Some('2')
    } else if cp == 0x1D7D2 {
        Some('3')
    } else if cp == 0x1D7D3 {
        Some('4')
    } else if cp == 0x1D7D4 {
        Some('5')
    } else if cp == 0x1D7D5 {
        Some('6')
    } else if cp == 0x1D7D6 {
        Some('7')
    } else if cp == 0x1D7D7 {
        Some('8')
    } else if cp == 0x1D7D8 {
        Some('9')
    } else {
        None
    }
}

/// What the override contributes to the output: its character as a
/// one-element sequence.
pub open spec fn override_seq(cp: u32) -> Option<Seq<char>> {
    match override_entry(cp) {
        Some(ch) => Some(seq![ch]),
        None => None,
    }
}

/// Every override value is ASCII, and every override key lies in the
/// Mathematical Alphanumeric Symbols range, far above the directly indexed
/// range.
pub proof fn lemma_override_entry_wf(cp: u32)
    ensures
        (override_entry(cp) matches Some(ch) ==> ascii_char(ch)),
        (override_entry(cp) is Some ==> 0x1D400 <= cp <= 0x1D7D8),
        (cp < 0x100 ==> override_entry(cp) is None),
{
}

/// Looks a code point up in the override table.
pub fn lookup_override(cp: u32) -> (r: Option<&'static str>)
    ensures
        match r {
            Some(s) => override_seq(cp) == Some(s@),
            None => override_seq(cp) is None,
        },
{
    match cp {
        0x1D400 => {
            proof {
                reveal_strlit("A");
                assert("A"@ =~= seq!['A']);
            }
            Some("A")
        },
        0x1D401 => {
            proof {
                reveal_strlit("B");
                assert("B"@ =~= seq!['B']);
            }
            Some("B")
        },
        0x1D402 => {
            proof {
                reveal_strlit("C");
                assert("C"@ =~= seq!['C']);
            }
            Some("C")
        },
        0x1D403 => {
            proof {
                reveal_strlit("D");
                assert("D"@ =~= seq!['D']);
            }
            Some("D")
        },
        0x1D404 => {
            proof {
                reveal_strlit("E");
                assert("E"@ =~= seq!['E']);
            }
            Some("E")
        },
        0x1D405 => {
            proof {
                reveal_strlit("F");
                assert("F"@ =~= seq!['F']);
            }
            Some("F")
        },
        0x1D406 => {
            proof {
                reveal_strlit("G");
                assert("G"@ =~= seq!['G']);
            }
            Some("G")
        },
        0x1D407 => {
            proof {
                reveal_strlit("H");
                assert("H"@ =~= seq!['H']);
            }
            Some("H")
        },
        0x1D408 => {
            proof {
                reveal_strlit("I");
                assert("I"@ =~= seq!['I']);
            }
            Some("I")
        },
        0x1D409 => {
            proof {
                reveal_strlit("J");
                assert("J"@ =~= seq!['J']);
            }
            Some("J")
        },
        0x1D40A => {
            proof {
                reveal_strlit("K");
                assert("K"@ =~= seq!['K']);
            }
            Some("K")
        },
        0x1D40B => {
            proof {
                reveal_strlit("L");
                assert("L"@ =~= seq!['L']);
            }
            Some("L")
        },
        0x1D40C => {
            proof {
                reveal_strlit("M");
                assert("M"@ =~= seq!['M']);
            }
            Some("M")
        },
        0x1D40D => {
            proof {
                reveal_strlit("N");
                assert("N"@ =~= seq!['N']);
            }
            Some("N")
        },
        0x1D40E => {
            proof {
                reveal_strlit("O");
                assert("O"@ =~= seq!['O']);
            }
            Some("O")
        },
        0x1D40F => {
            proof {
                reveal_strlit("P");
                assert("P"@ =~= seq!['P']);
            }
            Some("P")
        },
        0x1D410 => {
            proof {
                reveal_strlit("Q");
                assert("Q"@ =~= seq!['Q']);
            }
            Some("Q")
        },
        0x1D411 => {
            proof {
                reveal_strlit("R");
                assert("R"@ =~= seq!['R']);
            }
            Some("R")
        },
        0x1D412 => {
            proof {
                reveal_strlit("S");
                assert("S"@ =~= seq!['S']);
            }
            Some("S")
        },
        0x1D413 => {
            proof {
                reveal_strlit("T");
                assert("T"@ =~= seq!['T']);
            }
            Some("T")
        },
        0x1D414 => {
            proof {
                reveal_strlit("U");
                assert("U"@ =~= seq!['U']);
            }
            Some("U")
        },
        0x1D415 => {
            proof {
                reveal_strlit("V");
                assert("V"@ =~= seq!['V']);
            }
            Some("V")
        },
        0x1D416 => {
            proof {
                reveal_strlit("W");
                assert("W"@ =~= seq!['W']);
            }
            Some("W")
        },
        0x1D417 => {
            proof {
                reveal_strlit("X");
                assert("X"@ =~= seq!['X']);
            }
            Some("X")
        },
        0x1D418 => {
            proof {
                reveal_strlit("Y");
                assert("Y"@ =~= seq!['Y']);
            }
            Some("Y")
        },
        0x1D419 => {
            proof {
                reveal_strlit("Z");
                assert("Z"@ =~= seq!['Z']);
            }
            Some("Z")
        },
        0x1D41A => {
            proof {
                reveal_strlit("a");
                assert("a"@ =~= seq!['a']);
            }
            Some("a")
        },
        0x1D41B => {
            proof {
                reveal_strlit("b");
                assert("b"@ =~= seq!['b']);
            }
            Some("b")
        },
        0x1D41C => {
            proof {
                reveal_strlit("c");
                assert("c"@ =~= seq!['c']);
            }
            Some("c")
        },
        0x1D41D => {
            proof {
                reveal_strlit("d");
                assert("d"@ =~= seq!['d']);
            }
            Some("d")
        },
        0x1D41E => {
            proof {
                reveal_strlit("e");
                assert("e"@ =~= seq!['e']);
            }
            Some("e")
        },
        0x1D41F => {
            proof {
                reveal_strlit("f");
                assert("f"@ =~= seq!['f']);
            }
            Some("f")
        },
        0x1D420 => {
            proof {
                reveal_strlit("g");
                assert("g"@ =~= seq!['g']);
            }
            Some("g")
        },
        0x1D421 => {
            proof {
                reveal_strlit("h");
                assert("h"@ =~= seq!['h']);
            }
            Some("h")
        },
        0x1D422 => {
            proof {
                reveal_strlit("i");
                assert("i"@ =~= seq!['i']);
            }
            Some("i")
        },
        0x1D423 => {
            proof {
                reveal_strlit("j");
                assert("j"@ =~= seq!['j']);
            }
            Some("j")
        },
        0x1D424 => {
            proof {
                reveal_strlit("k");
                assert("k"@ =~= seq!['k']);
            }
            Some("k")
        },
        0x1D425 => {
            proof {
                reveal_strlit("l");
                assert("l"@ =~= seq!['l']);
            }
            Some("l")
        },
        0x1D426 => {
            proof {
                reveal_strlit("m");
                assert("m"@ =~= seq!['m']);
            }
            Some("m")
        },
        0x1D427 => {
            proof {
                reveal_strlit("n");
                assert("n"@ =~= seq!['n']);
            }
            Some("n")
        },
        0x1D428 => {
            proof {
                reveal_strlit("o");
                assert("o"@ =~= seq!['o']);
            }
            Some("o")
        },
        0x1D429 => {
            proof {
                reveal_strlit("p");
                assert("p"@ =~= seq!['p']);
            }
            Some("p")
        },
        0x1D42A => {
            proof {
                reveal_strlit("q");
                assert("q"@ =~= seq!['q']);
            }
            Some("q")
        },
        0x1D42B => {
            proof {
                reveal_strlit("r");
                assert("r"@ =~= seq!['r']);
            }
            Some("r")
        },
        0x1D42C => {
            proof {
                reveal_strlit("s");
                assert("s"@ =~= seq!['s']);
            }
            Some("s")
        },
        0x1D42D => {
            proof {
                reveal_strlit("t");
                assert("t"@ =~= seq!['t']);
            }
            Some("t")
        },
        0x1D42E => {
            proof {
                reveal_strlit("u");
                assert("u"@ =~= seq!['u']);
            }
            Some("u")
        },
        0x1D42F => {
            proof {
                reveal_strlit("v");
                assert("v"@ =~= seq!['v']);
            }
            Some("v")
        },
        0x1D430 => {
            proof {
                reveal_strlit("w");
                assert("w"@ =~= seq!['w']);
            }
            Some("w")
        },
        0x1D431 => {
            proof {
                reveal_strlit("x");
                assert("x"@ =~= seq!['x']);
            }
            Some("x")
        },
        0x1D432 => {
            proof {
                reveal_strlit("y");
                assert("y"@ =~= seq!['y']);
            }
            Some("y")
        },
        0x1D433 => {
            proof {
                reveal_strlit("z");
                assert("z"@ =~= seq!['z']);
            }
            Some("z")
        },
        0x1D4D3 => {
            proof {
                reveal_strlit("T");
                assert("T"@ =~= seq!['T']);
            }
            Some("T")
        },
        0x1D4E3 => {
            proof {
                reveal_strlit("t");
                assert("t"@ =~= seq!['t']);
            }
            Some("t")
        },
        0x1D56D => {
            proof {
                reveal_strlit("h");
                assert("h"@ =~= seq!['h']);
            }
            Some("h")
        },
        0x1D54B => {
            proof {
                reveal_strlit("T");
                assert("T"@ =~= seq!['T']);
            }
            Some("T")
        },
        0x1D546 => {
            proof {
                reveal_strlit("H");
                assert("H"@ =~= seq!['H']);
            }
            Some("H")
        },
        0x1D53C => {
            proof {
                reveal_strlit("E");
                assert("E"@ =~= seq!['E']);
            }
            Some("E")
        },
        0x1D57F => {
            proof {
                reveal_strlit("T");
                assert("T"@ =~= seq!['T']);
            }
            Some("T")
        },
        0x1D57A => {
            proof {
                reveal_strlit("H");
                assert("H"@ =~= seq!['H']);
            }
            Some("H")
        },
        0x1D570 => {
            proof {
                reveal_strlit("E");
                assert("E"@ =~= seq!['E']);
            }
            Some("E")
        },
        0x1D7CF => {
            proof {
                reveal_strlit("0");
                assert("0"@ =~= seq!['0']);
            }
            Some("0")
        },
        0x1D7D0 => {
            proof {
                reveal_strlit("1");
                assert("1"@ =~= seq!['1']);
            }
            Some("1")
        },
        0x1D7D1 => {
            proof {
                reveal_strlit("2");
                assert("2"@ =~= seq!['2']);
            }
            Some("2")
        },
        0x1D7D2 => {
            proof {
                reveal_strlit("3");
                assert("3"@ =~= seq!['3']);
            }
            Some("3")
        },
        0x1D7D3 => {
            proof {
                reveal_strlit("4");
                assert("4"@ =~= seq!['4']);
            }
            Some("4")
        },
        0x1D7D4 => {
            proof {
                reveal_strlit("5");
                assert("5"@ =~= seq!['5']);
            }
            Some("5")
        },
        0x1D7D5 => {
            proof {
                reveal_strlit("6");
                assert("6"@ =~= seq!['6']);
            }
            Some("6")
        },
        0x1D7D6 => {
            proof {
                reveal_strlit("7");
                assert("7"@ =~= seq!['7']);
            }
            Some("7")
        },
        0x1D7D7 => {
            proof {
                reveal_strlit("8");
                assert("8"@ =~= seq!['8']);
            }
            Some("8")
        },
        0x1D7D8 => {
            proof {
                reveal_strlit("9");
                assert("9"@ =~= seq!['9']);
            }
            Some("9")
        },
        _ => None,
    }
}

} // verus!
