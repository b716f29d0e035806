//! The generic instruction set of the BEAM as Erlang/OTP R16 has it:
//! opcodes 1 to 153, each with the number of its operands.

use vstd::prelude::*;

verus! {

/// The opcode id of the `label` pseudo-instruction, which opens a block.
pub const LABEL: u8 = 1;

/// The opcode id of `func_info`.
pub const FUNC_INFO: u8 = 2;

/// The highest opcode id of the instruction set.
pub const MAX_OPCODE: u8 = 153;

/// Whether `id` names an instruction of the instruction set.
pub open spec fn is_opcode(id: u8) -> bool {
    1 <= id <= MAX_OPCODE
}

/// How many operands the instruction with opcode `id` takes; 0 for an id that
/// names no instruction.
#[verifier::opaque]
pub open spec fn arity(id: u8) -> nat {
    match id {
        1 => 1,  // label
        2 => 3,  // func_info
        3 => 0,  // int_code_end
        4 => 2,  // call
        5 => 3,  // call_last
        6 => 2,  // call_only
        7 => 2,  // call_ext
        8 => 3,  // call_ext_last
        9 => 2,  // bif0
        10 => 4,  // bif1
        11 => 5,  // bif2
        12 => 2,  // allocate
        13 => 3,  // allocate_heap
        14 => 2,  // allocate_zero
        15 => 3,  // allocate_heap_zero
        16 => 2,  // test_heap
        17 => 1,  // init
        18 => 1,  // deallocate
        19 => 0,  // return
        20 => 0,  // send
        21 => 0,  // remove_message
        22 => 0,  // timeout
        23 => 2,  // loop_rec
        24 => 1,  // loop_rec_end
        25 => 1,  // wait
        26 => 2,  // wait_timeout
        27 => 4,  // m_plus
        28 => 4,  // m_minus
        29 => 4,  // m_times
        30 => 4,  // m_div
        31 => 4,  // int_div
        32 => 4,  // int_rem
        33 => 4,  // int_band
        34 => 4,  // int_bor
        35 => 4,  // int_bxor
        36 => 4,  // int_bsl
        37 => 4,  // int_bsr
        38 => 3,  // int_bnot
        39 => 3,  // is_lt
        40 => 3,  // is_ge
        41 => 3,  // is_eq
        42 => 3,  // is_ne
        43 => 3,  // is_eq_exact
        44 => 3,  // is_ne_exact
        45 => 2,  // is_integer
        46 => 2,  // is_float
        47 => 2,  // is_number
        48 => 2,  // is_atom
        49 => 2,  // is_pid
        50 => 2,  // is_reference
        51 => 2,  // is_port
        52 => 2,  // is_nil
        53 => 2,  // is_binary
        54 => 2,  // is_constant
        55 => 2,  // is_list
        56 => 2,  // is_nonempty_list
        57 => 2,  // is_tuple
        58 => 3,  // test_arity
        59 => 3,  // select_val
        60 => 3,  // select_tuple_arity
        61 => 1,  // jump
        62 => 2,  // catch
        63 => 1,  // catch_end
        64 => 2,  // move
        65 => 3,  // get_list
        66 => 3,  // get_tuple_element
        67 => 3,  // set_tuple_element
        68 => 3,  // put_string
        69 => 3,  // put_list
        70 => 2,  // put_tuple
        71 => 1,  // put
        72 => 1,  // badmatch
        73 => 0,  // if_end
        74 => 1,  // case_end
        75 => 1,  // call_fun
        76 => 3,  // make_fun
        77 => 2,  // is_function
        78 => 2,  // call_ext_only
        79 => 2,  // bs_start_match
        80 => 5,  // bs_get_integer
        81 => 5,  // bs_get_float
        82 => 5,  // bs_get_binary
        83 => 4,  // bs_skip_bits
        84 => 2,  // bs_test_tail
        85 => 1,  // bs_save
        86 => 1,  // bs_restore
        87 => 2,  // bs_init
        88 => 2,  // bs_final
        89 => 5,  // bs_put_integer
        90 => 5,  // bs_put_binary
        91 => 5,  // bs_put_float
        92 => 2,  // bs_put_string
        93 => 1,  // bs_need_buf
        94 => 0,  // fclearerror
        95 => 1,  // fcheckerror
        96 => 2,  // fmove
        97 => 2,  // fconv
        98 => 4,  // fadd
        99 => 4,  // fsub
        100 => 4,  // fmul
        101 => 4,  // fdiv
        102 => 3,  // fnegate
        103 => 1,  // make_fun2
        104 => 2,  // try
        105 => 1,  // try_end
        106 => 1,  // try_case
        107 => 1,  // try_case_end
        108 => 2,  // raise
        109 => 6,  // bs_init2
        110 => 3,  // bs_bits_to_bytes
        111 => 5,  // bs_add
        112 => 1,  // apply
        113 => 2,  // apply_last
        114 => 2,  // is_boolean
        115 => 3,  // is_function2
        116 => 5,  // bs_start_match2
        117 => 7,  // bs_get_integer2
        118 => 7,  // bs_get_float2
        119 => 7,  // bs_get_binary2
        120 => 5,  // bs_skip_bits2
        121 => 3,  // bs_test_tail2
        122 => 2,  // bs_save2
        123 => 2,  // bs_restore2
        124 => 5,  // gc_bif1
        125 => 6,  // gc_bif2
        126 => 2,  // bs_final2
        127 => 2,  // bs_bits_to_bytes2
        128 => 2,  // bs_put_literal
        129 => 2,  // is_bitstr
        130 => 1,  // bs_context_to_binary
        131 => 3,  // bs_test_unit
        132 => 4,  // bs_match_string
        133 => 0,  // bs_init_writable
        134 => 8,  // bs_append
        135 => 6,  // bs_private_append
        136 => 2,  // trim
        137 => 6,  // bs_init_bits
        138 => 5,  // bs_get_utf8
        139 => 4,  // bs_skip_utf8
        140 => 5,  // bs_get_utf16
        141 => 4,  // bs_skip_utf16
        142 => 5,  // bs_get_utf32
        143 => 4,  // bs_skip_utf32
        144 => 3,  // bs_utf8_size
        145 => 3,  // bs_put_utf8
        146 => 3,  // bs_utf16_size
        147 => 3,  // bs_put_utf16
        148 => 3,  // bs_put_utf32
        149 => 0,  // on_load
        150 => 1,  // recv_mark
        151 => 1,  // recv_set
        152 => 7,  // gc_bif3
        153 => 1,  // line
        _ => 0,
    }
}

/// The number of operands of the instruction with opcode `id`.
pub fn get_arity(id: u8) -> (n: usize)
    ensures
        n == arity(id),
        n <= 8,
{
    reveal(arity);
    match id {
        1 => 1,  // label
        2 => 3,  // func_info
        3 => 0,  // int_code_end
        4 => 2,  // call
        5 => 3,  // call_last
        6 => 2,  // call_only
        7 => 2,  // call_ext
        8 => 3,  // call_ext_last
        9 => 2,  // bif0
        10 => 4,  // bif1
        11 => 5,  // bif2
        12 => 2,  // allocate
        13 => 3,  // allocate_heap
        14 => 2,  // allocate_zero
        15 => 3,  // allocate_heap_zero
        16 => 2,  // test_heap
        17 => 1,  // init
        18 => 1,  // deallocate
        19 => 0,  // return
        20 => 0,  // send
        21 => 0,  // remove_message
        22 => 0,  // timeout
        23 => 2,  // loop_rec
        24 => 1,  // loop_rec_end
        25 => 1,  // wait
        26 => 2,  // wait_timeout
        27 => 4,  // m_plus
        28 => 4,  // m_minus
        29 => 4,  // m_times
        30 => 4,  // m_div
        31 => 4,  // int_div
        32 => 4,  // int_rem
        33 => 4,  // int_band
        34 => 4,  // int_bor
        35 => 4,  // int_bxor
        36 => 4,  // int_bsl
        37 => 4,  // int_bsr
        38 => 3,  // int_bnot
        39 => 3,  // is_lt
        40 => 3,  // is_ge
        41 => 3,  // is_eq
        42 => 3,  // is_ne
        43 => 3,  // is_eq_exact
        44 => 3,  // is_ne_exact
        45 => 2,  // is_integer
        46 => 2,  // is_float
        47 => 2,  // is_number
        48 => 2,  // is_atom
        49 => 2,  // is_pid
        50 => 2,  // is_reference
        51 => 2,  // is_port
        52 => 2,  // is_nil
        53 => 2,  // is_binary
        54 => 2,  // is_constant
        55 => 2,  // is_list
        56 => 2,  // is_nonempty_list
        57 => 2,  // is_tuple
        58 => 3,  // test_arity
        59 => 3,  // select_val
        60 => 3,  // select_tuple_arity
        61 => 1,  // jump
        62 => 2,  // catch
        63 => 1,  // catch_end
        64 => 2,  // move
        65 => 3,  // get_list
        66 => 3,  // get_tuple_element
        67 => 3,  // set_tuple_element
        68 => 3,  // put_string
        69 => 3,  // put_list
        70 => 2,  // put_tuple
        71 => 1,  // put
        72 => 1,  // badmatch
        73 => 0,  // if_end
        74 => 1,  // case_end
        75 => 1,  // call_fun
        76 => 3,  // make_fun
        77 => 2,  // is_function
        78 => 2,  // call_ext_only
        79 => 2,  // bs_start_match
        80 => 5,  // bs_get_integer
        81 => 5,  // bs_get_float
        82 => 5,  // bs_get_binary
        83 => 4,  // bs_skip_bits
        84 => 2,  // bs_test_tail
        85 => 1,  // bs_save
        86 => 1,  // bs_restore
        87 => 2,  // bs_init
        88 => 2,  // bs_final
        89 => 5,  // bs_put_integer
        90 => 5,  // bs_put_binary
        91 => 5,  // bs_put_float
        92 => 2,  // bs_put_string
        93 => 1,  // bs_need_buf
        94 => 0,  // fclearerror
        95 => 1,  // fcheckerror
        96 => 2,  // fmove
        97 => 2,  // fconv
        98 => 4,  // fadd
        99 => 4,  // fsub
        100 => 4,  // fmul
        101 => 4,  // fdiv
        102 => 3,  // fnegate
        103 => 1,  // make_fun2
        104 => 2,  // try
        105 => 1,  // try_end
        106 => 1,  // try_case
        107 => 1,  // try_case_end
        108 => 2,  // raise
        109 => 6,  // bs_init2
        110 => 3,  // bs_bits_to_bytes
        111 => 5,  // bs_add
        112 => 1,  // apply
        113 => 2,  // apply_last
        114 => 2,  // is_boolean
        115 => 3,  // is_function2
        116 => 5,  // bs_start_match2
        117 => 7,  // bs_get_integer2
        118 => 7,  // bs_get_float2
        119 => 7,  // bs_get_binary2
        120 => 5,  // bs_skip_bits2
        121 => 3,  // bs_test_tail2
        122 => 2,  // bs_save2
        123 => 2,  // bs_restore2
        124 => 5,  // gc_bif1
        125 => 6,  // gc_bif2
        126 => 2,  // bs_final2
        127 => 2,  // bs_bits_to_bytes2
        128 => 2,  // bs_put_literal
        129 => 2,  // is_bitstr
        130 => 1,  // bs_context_to_binary
        131 => 3,  // bs_test_unit
        132 => 4,  // bs_match_string
        133 => 0,  // bs_init_writable
        134 => 8,  // bs_append
        135 => 6,  // bs_private_append
        136 => 2,  // trim
        137 => 6,  // bs_init_bits
        138 => 5,  // bs_get_utf8
        139 => 4,  // bs_skip_utf8
        140 => 5,  // bs_get_utf16
        141 => 4,  // bs_skip_utf16
        142 => 5,  // bs_get_utf32
        143 => 4,  // bs_skip_utf32
        144 => 3,  // bs_utf8_size
        145 => 3,  // bs_put_utf8
        146 => 3,  // bs_utf16_size
        147 => 3,  // bs_put_utf16
        148 => 3,  // bs_put_utf32
        149 => 0,  // on_load
        150 => 1,  // recv_mark
        151 => 1,  // recv_set
        152 => 7,  // gc_bif3
        153 => 1,  // line
        _ => 0,
    }
}

} // verus!
