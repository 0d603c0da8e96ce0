use vstd::prelude::*;
use vstd::string::*;
use crate::lexer::{digits_value, is_digit};
use crate::text::{decimal, decimal_string};

verus! {

pub open spec fn is_negative(s: Seq<char>) -> bool {
    s.len() > 0 && s[0] == '-'
}

/// What follows the sign, if there is one.
pub open spec fn unsigned_part(s: Seq<char>) -> Seq<char> {
    if s.len() > 0 && (s[0] == '-' || s[0] == '+') {
        s.drop_first()
    } else {
        s
    }
}

/// The value of a decimal integer with an optional sign, when it fits in 32 bits.
pub open spec fn spec_parse_i32(s: Seq<char>) -> Option<int> {
    let neg = is_negative(s);
    let digits = unsigned_part(s);
    let v = if neg {
        -digits_value(digits)
    } else {
        digits_value(digits) as int
    };
    if digits.len() == 0 || exists|j: int| 0 <= j < digits.len() && !is_digit(#[trigger] digits[j]) {
        None
    } else if v < i32::MIN || v > i32::MAX {
        None
    } else {
        Some(v)
    }
}

/// The decimal text of an integer, with `-` in front of a negative one.
pub open spec fn int_text(v: int) -> Seq<char> {
    if v < 0 {
        "-"@ + decimal((-v) as nat)
    } else {
        decimal(v as nat)
    }
}

/// The assembly text of a program whose `main` returns `v`.
pub open spec fn constant_program(v: int) -> Seq<char> {
    "    .intel_syntax noprefix\n    .text\n    .globl main\nmain:\n    mov rax, "@ + int_text(v)
        + "\n    ret\n"@
}

/// Compiles a source text that is a single 32-bit integer into a program returning it.
pub fn compile(input: &str) -> (r: Result<String, String>)
    ensures
        r is Ok <==> spec_parse_i32(input@) is Some,
        r matches Ok(s) ==> s@ == constant_program(spec_parse_i32(input@)->Some_0),
{
    let len = input.unicode_len();
    let neg = len > 0 && input.get_char(0) == '-';
    let start: usize = if len > 0 && (input.get_char(0) == '-' || input.get_char(0) == '+') {
        1
    } else {
        0
    };
    let ghost digits = input@.subrange(start as int, len as int);
    proof {
        if start == 1 {
            assert(digits =~= input@.drop_first());
        } else {
            assert(digits =~= input@);
        }
    }
    let limit: u64 = if neg {
        2147483648
    } else {
        2147483647
    };
    let mut i: usize = start;
    let mut v: u64 = 0;
    let mut too_big = false;
    while i < len
        invariant
            len == input@.len(),
            start <= i <= len,
            digits == input@.subrange(start as int, len as int),
            digits == unsigned_part(input@),
            neg == is_negative(input@),
            limit == if neg {
                2147483648u64
            } else {
                2147483647u64
            },
            forall|j: int| 0 <= j < i - start ==> is_digit(#[trigger] digits[j]),
            !too_big ==> v as nat == digits_value(digits.take(i - start)) && v <= limit,
            too_big ==> digits_value(digits.take(i - start)) > limit,
        decreases len - i,
    {
        let c = input.get_char(i);
        if !('0' <= c && c <= '9') {
            assert(!is_digit(digits[i - start]));
            return Err(String::from_str("expected a 32-bit integer"));
        }
        let d = (c as u32 - '0' as u32) as u64;
        proof {
            let k = i - start;
            assert(digits[k] == c);
            assert(digits.take(k + 1).drop_last() =~= digits.take(k));
            assert(digits_value(digits.take(k + 1)) == digits_value(digits.take(k)) * 10 + d);
            if too_big {
                assert(digits_value(digits.take(k)) * 10 + d > limit) by (nonlinear_arith)
                    requires
                        digits_value(digits.take(k)) > limit,
                ;
            }
        }
        if !too_big {
            assert(v * 10 + d <= 21474836489) by (nonlinear_arith)
                requires
                    v <= 2147483648,
                    d <= 9,
            ;
            if v * 10 + d > limit {
                too_big = true;
            } else {
                v = v * 10 + d;
            }
        }
        i = i + 1;
    }
    proof {
        assert(digits.take(len - start) =~= digits);
        assert(forall|j: int| 0 <= j < digits.len() ==> is_digit(#[trigger] digits[j]));
    }
    if len == start || too_big {
        return Err(String::from_str("expected a 32-bit integer"));
    }
    let mut s = String::from_str(
        "    .intel_syntax noprefix\n    .text\n    .globl main\nmain:\n    mov rax, ",
    );
    if neg && v > 0 {
        s.append("-");
    }
    s.append(decimal_string(v).as_str());
    s.append("\n    ret\n");
    proof {
        let head = "    .intel_syntax noprefix\n    .text\n    .globl main\nmain:\n    mov rax, "@;
        if neg && v > 0 {
            assert(s@ =~= head + ("-"@ + decimal(v as nat)) + "\n    ret\n"@);
        } else {
            assert(s@ =~= head + decimal(v as nat) + "\n    ret\n"@);
        }
    }
    Ok(s)
}

} // verus!
