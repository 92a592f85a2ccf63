//! Decoding only looks at the bytes it reads: a read that succeeds on the
//! first `k` bytes of an input ends within them and gives the same result on
//! the whole input.  Hence a file whose decoding reads all of its bytes
//! cannot be cut short without the decoder noticing.

use vstd::prelude::*;

use crate::ffparams::{arity, entries_step, ffparams_step, kind_of_code, raw_code, InteractionType, N_KINDS};
use crate::molblocks::{block_step, posres_step};
use crate::moltypes::{moltype_step, record_at, record_size, residue_records_step, tail_step};
use crate::topology::{
    atomtypes_step, blocks_part_step, blocks_step, cmap_step, exclusions_step, group_numbers_step, groups_step,
    inter_step, moltypes_step,
    topology_head_step, topology_step, trailer_step, NR_GROUP_TYPES,
};
use crate::interactions::{i32s_at, instance_step, instances_step, kinds_step, n_instances};
use crate::coordinates::{block_len, block_read_step, coordinates_step, vectors_at};
use crate::header::{header_error, header_step};
use crate::simbox::simbox_step;
use crate::structures::Precision;
use crate::tpr::{box_step, file_model, file_step, preamble_step, symtab_step};
use crate::symtab::{symbol_step, symbols_step};
use crate::xdr::{
    be_i32, count_of, real_width, skip_step, string4_step, uchar_step, vector3_at, string8_step, string_body_step, strings_step, text_step, Step,
};

verus! {

/// `short`, a read at `p` on a prefix of `k` bytes, ends within the prefix
/// (and not before `p`) and agrees with `full`, the same read on the whole
/// input, when it succeeds.
pub open spec fn extends<T>(short: Step<T>, full: Step<T>, p: int, k: int) -> bool {
    short matches Ok((_, e)) ==> p <= e <= k && full == short
}

pub proof fn lemma_text_extends(b: Seq<u8>, k: int, p: int, n: int)
    requires
        0 <= p <= k <= b.len(),
        n >= 0,
    ensures
        extends(text_step(b.take(k), p, n), text_step(b, p, n), p, k),
{
    if p + n <= k {
        assert(b.take(k).subrange(p, p + n) =~= b.subrange(p, p + n));
    }
}

pub proof fn lemma_string4_extends(b: Seq<u8>, k: int, p: int)
    requires
        0 <= p <= k <= b.len(),
    ensures
        extends(string4_step(b.take(k), p), string4_step(b, p), p, k),
{
    if p + 8 <= k {
        lemma_text_extends(b, k, p + 8, crate::xdr::round4(crate::xdr::be_u32(b, p + 4)));
    }
}

pub proof fn lemma_string8_extends(b: Seq<u8>, k: int, p: int)
    requires
        0 <= p <= k <= b.len(),
    ensures
        extends(string8_step(b.take(k), p), string8_step(b, p), p, k),
{
    if p + 8 <= k {
        lemma_text_extends(b, k, p + 8, crate::xdr::be_u64(b, p));
    }
}

pub proof fn lemma_string_body_extends(b: Seq<u8>, k: int, p: int, version: i32)
    requires
        0 <= p <= k <= b.len(),
    ensures
        extends(string_body_step(b.take(k), p, version), string_body_step(b, p, version), p, k),
{
    lemma_string4_extends(b, k, p);
    lemma_string8_extends(b, k, p);
}

pub proof fn lemma_strings_extends(b: Seq<u8>, k: int, p: int, version: i32, n: int)
    requires
        0 <= p <= k <= b.len(),
    ensures
        extends(strings_step(b.take(k), p, version, n), strings_step(b, p, version, n), p, k),
    decreases n,
{
    if n > 0 {
        lemma_strings_extends(b, k, p, version, n - 1);
        if let Ok((_, q)) = strings_step(b.take(k), p, version, n - 1) {
            lemma_string_body_extends(b, k, q, version);
        }
    }
}

pub proof fn lemma_symbols_extends(b: Seq<u8>, k: int, p: int, symbols: Seq<Seq<char>>, n: int)
    requires
        0 <= p <= k <= b.len(),
    ensures
        extends(symbols_step(b.take(k), p, symbols, n), symbols_step(b, p, symbols, n), p, k),
        extends(symbol_step(b.take(k), p, symbols), symbol_step(b, p, symbols), p, k),
    decreases n,
{
    if n > 0 {
        lemma_symbols_extends(b, k, p, symbols, n - 1);
        if let Ok((_, q)) = symbols_step(b.take(k), p, symbols, n - 1) {
            lemma_symbols_extends(b, k, q, symbols, 0);
        }
    }
}

pub proof fn lemma_instances_extends(b: Seq<u8>, k: int, p: int, a: int, types: Seq<InteractionType>, n: int)
    requires
        0 <= p <= k <= b.len(),
        a >= 0,
    ensures
        extends(instances_step(b.take(k), p, a, types, n), instances_step(b, p, a, types, n), p, k),
        extends(instance_step(b.take(k), p, a, types), instance_step(b, p, a, types), p, k),
    decreases n,
{
    if p + 4 + 4 * a <= k {
        assert(i32s_at(b.take(k), p + 4, a) =~= i32s_at(b, p + 4, a));
    }
    if n > 0 {
        lemma_instances_extends(b, k, p, a, types, n - 1);
        if let Ok((_, q)) = instances_step(b.take(k), p, a, types, n - 1) {
            lemma_instances_extends(b, k, q, a, types, 0);
        }
    }
}

pub proof fn lemma_kinds_extends(b: Seq<u8>, k: int, p: int, version: i32, types: Seq<InteractionType>, c: int)
    requires
        0 <= p <= k <= b.len(),
    ensures
        extends(kinds_step(b.take(k), p, version, types, c), kinds_step(b, p, version, types, c), p, k),
    decreases c,
{
    if c > 0 {
        lemma_kinds_extends(b, k, p, version, types, c - 1);
        if let Ok((_, q)) = kinds_step(b.take(k), p, version, types, c - 1) {
            let kind = kind_of_code((c - 1) as i32)->Some_0;
            if q + 4 <= k {
                let count = be_i32(b, q);
                assert(arity(kind) >= 0);
                lemma_instances_extends(b, k, q + 4, arity(kind), types, n_instances(count, arity(kind)));
            }
        }
    }
}

pub proof fn lemma_entries_extends(
    b: Seq<u8>,
    k: int,
    p: int,
    precision: Precision,
    version: i32,
    raw: Seq<int>,
    n: int,
)
    requires
        0 <= p <= k <= b.len(),
    ensures
        extends(
            entries_step(b.take(k), p, precision, version, raw, n),
            entries_step(b, p, precision, version, raw, n),
            p,
            k,
        ),
    decreases n,
{
    if n > 0 {
        lemma_entries_extends(b, k, p, precision, version, raw, n - 1);
    }
}

pub proof fn lemma_ffparams_extends(b: Seq<u8>, k: int, p: int, precision: Precision, version: i32)
    requires
        0 <= p <= k <= b.len(),
    ensures
        extends(ffparams_step(b.take(k), p, precision, version), ffparams_step(b, p, precision, version), p, k),
{
    if p + 8 <= k {
        let m = count_of(be_i32(b, p + 4) as i32);
        let start = p + 8 + 4 * m + 8 + real_width(precision);
        if start <= k {
            let c = b.take(k);
            assert(Seq::new(m as nat, |i: int| raw_code(c, p, i)) =~= Seq::new(m as nat, |i: int| raw_code(b, p, i)));
            lemma_entries_extends(b, k, start, precision, version, Seq::new(m as nat, |i: int| raw_code(b, p, i)), m);
        }
    }
}

pub proof fn lemma_residues_extends(b: Seq<u8>, k: int, p: int, version: i32, symbols: Seq<Seq<char>>, n: int)
    requires
        0 <= p <= k <= b.len(),
    ensures
        extends(
            residue_records_step(b.take(k), p, version, symbols, n),
            residue_records_step(b, p, version, symbols, n),
            p,
            k,
        ),
    decreases n,
{
    if n > 0 {
        lemma_residues_extends(b, k, p, version, symbols, n - 1);
    }
}

/// The kept fields of `n` atom records of `size` bytes from `q` lie within
/// the first `k` bytes when the records do.
pub proof fn lemma_records_within(b: Seq<u8>, k: int, q: int, n: int, precision: Precision, version: i32)
    requires
        0 <= q,
        0 <= n,
        q + n * record_size(precision, version) <= k <= b.len(),
    ensures
        Seq::new(n as nat, |j: int| record_at(b.take(k), q + j * record_size(precision, version), precision, version))
            == Seq::new(n as nat, |j: int| record_at(b, q + j * record_size(precision, version), precision, version)),
{
    let size = record_size(precision, version);
    let c = b.take(k);
    assert forall|j: int| 0 <= j < n implies #[trigger] record_at(c, q + j * size, precision, version) == record_at(
        b,
        q + j * size,
        precision,
        version,
    ) by {
        assert(j * size + size <= n * size) by (nonlinear_arith)
            requires
                j < n,
                size >= 0,
        ;
        assert(0 <= j * size) by (nonlinear_arith)
            requires
                0 <= j,
                size >= 0,
        ;
    }
    assert(Seq::new(n as nat, |j: int| record_at(c, q + j * size, precision, version)) =~= Seq::new(
        n as nat,
        |j: int| record_at(b, q + j * size, precision, version),
    ));
}

pub proof fn lemma_tail_extends(b: Seq<u8>, k: int, p: int)
    requires
        0 <= p <= k <= b.len(),
    ensures
        extends(tail_step(b.take(k), p), tail_step(b, p), p, k),
{
}

/// The part of a molecule type after its atom records.
pub proof fn lemma_moltype_rest_extends(
    b: Seq<u8>,
    k: int,
    q3: int,
    n: int,
    nr: int,
    version: i32,
    symbols: Seq<Seq<char>>,
    types: Seq<InteractionType>,
)
    requires
        0 <= q3 <= k <= b.len(),
        0 <= n,
    ensures
        symbols_step(b.take(k), q3, symbols, n) matches Ok((_, q4)) ==> {
            &&& q3 <= q4 <= k
            &&& symbols_step(b, q3, symbols, n) == symbols_step(b.take(k), q3, symbols, n)
            &&& extends(symbols_step(b.take(k), q4, symbols, 2 * n), symbols_step(b, q4, symbols, 2 * n), q4, k)
            &&& symbols_step(b.take(k), q4, symbols, 2 * n) matches Ok((_, q5)) ==> {
                &&& extends(
                    residue_records_step(b.take(k), q5, version, symbols, nr),
                    residue_records_step(b, q5, version, symbols, nr),
                    q5,
                    k,
                )
                &&& residue_records_step(b.take(k), q5, version, symbols, nr) matches Ok((_, q6)) ==> {
                    &&& extends(
                        kinds_step(b.take(k), q6, version, types, N_KINDS as int),
                        kinds_step(b, q6, version, types, N_KINDS as int),
                        q6,
                        k,
                    )
                    &&& kinds_step(b.take(k), q6, version, types, N_KINDS as int) matches Ok((_, q7)) ==> extends(
                        tail_step(b.take(k), q7),
                        tail_step(b, q7),
                        q7,
                        k,
                    )
                }
            }
        },
{
    let c = b.take(k);
    lemma_symbols_extends(b, k, q3, symbols, n);
    if let Ok((_, q4)) = symbols_step(c, q3, symbols, n) {
        lemma_symbols_extends(b, k, q4, symbols, 2 * n);
        if let Ok((_, q5)) = symbols_step(c, q4, symbols, 2 * n) {
            lemma_residues_extends(b, k, q5, version, symbols, nr);
            if let Ok((_, q6)) = residue_records_step(c, q5, version, symbols, nr) {
                lemma_kinds_extends(b, k, q6, version, types, N_KINDS as int);
                if let Ok((_, q7)) = kinds_step(c, q6, version, types, N_KINDS as int) {
                    lemma_tail_extends(b, k, q7);
                }
            }
        }
    }
}

#[verifier::rlimit(60)]
pub proof fn lemma_moltype_extends(
    b: Seq<u8>,
    k: int,
    p: int,
    precision: Precision,
    version: i32,
    symbols: Seq<Seq<char>>,
    types: Seq<InteractionType>,
)
    requires
        0 <= p <= k <= b.len(),
    ensures
        extends(
            moltype_step(b.take(k), p, precision, version, symbols, types),
            moltype_step(b, p, precision, version, symbols, types),
            p,
            k,
        ),
{
    reveal(moltype_step);
    let c = b.take(k);
    lemma_symbols_extends(b, k, p, symbols, 0);
    if p + 12 <= k && symbol_step(c, p, symbols) is Ok {
        let q2 = p + 12;
        let n = count_of(be_i32(b, p + 4) as i32);
        let nr = count_of(be_i32(b, p + 8) as i32);
        let size = record_size(precision, version);
        assert(0 <= n * size) by (nonlinear_arith)
            requires
                0 <= n,
                size >= 0,
        ;
        if q2 + n * size <= k {
            lemma_records_within(b, k, q2, n, precision, version);
            lemma_moltype_rest_extends(b, k, q2 + n * size, n, nr, version, symbols, types);
        }
    }
}

pub proof fn lemma_block_extends(b: Seq<u8>, k: int, p: int, precision: Precision)
    requires
        0 <= p <= k <= b.len(),
    ensures
        extends(block_step(b.take(k), p, precision), block_step(b, p, precision), p, k),
{
    let c = b.take(k);
    if p + 12 <= k {
        assert(posres_step(c, p + 12, precision) matches Ok((_, q1)) ==> posres_step(b, p + 12, precision)
            == posres_step(c, p + 12, precision) && p + 12 <= q1 <= k);
        if let Ok((_, q1)) = posres_step(c, p + 12, precision) {
            assert(posres_step(c, q1, precision) matches Ok((_, q2)) ==> posres_step(b, q1, precision)
                == posres_step(c, q1, precision) && q1 <= q2 <= k);
        }
    }
}

pub proof fn lemma_blocks_extends(b: Seq<u8>, k: int, p: int, precision: Precision, n: int)
    requires
        0 <= p <= k <= b.len(),
    ensures
        extends(blocks_step(b.take(k), p, precision, n), blocks_step(b, p, precision, n), p, k),
    decreases n,
{
    if n > 0 {
        lemma_blocks_extends(b, k, p, precision, n - 1);
        if let Ok((_, q)) = blocks_step(b.take(k), p, precision, n - 1) {
            lemma_block_extends(b, k, q, precision);
        }
    }
}

pub proof fn lemma_moltypes_extends(
    b: Seq<u8>,
    k: int,
    p: int,
    precision: Precision,
    version: i32,
    symbols: Seq<Seq<char>>,
    types: Seq<InteractionType>,
    n: int,
)
    requires
        0 <= p <= k <= b.len(),
    ensures
        extends(
            moltypes_step(b.take(k), p, precision, version, symbols, types, n),
            moltypes_step(b, p, precision, version, symbols, types, n),
            p,
            k,
        ),
    decreases n,
{
    if n > 0 {
        lemma_moltypes_extends(b, k, p, precision, version, symbols, types, n - 1);
        if let Ok((_, q)) = moltypes_step(b.take(k), p, precision, version, symbols, types, n - 1) {
            lemma_moltype_extends(b, k, q, precision, version, symbols, types);
        }
    }
}

pub proof fn lemma_inter_extends(b: Seq<u8>, k: int, p: int, version: i32, types: Seq<InteractionType>, flag: bool)
    requires
        0 <= p <= k <= b.len(),
    ensures
        extends(inter_step(b.take(k), p, version, types, flag), inter_step(b, p, version, types, flag), p, k),
{
    reveal(inter_step);
    lemma_kinds_extends(b, k, p, version, types, N_KINDS as int);
}

pub proof fn lemma_blocks_part_extends(
    b: Seq<u8>,
    k: int,
    p: int,
    precision: Precision,
    version: i32,
    types: Seq<InteractionType>,
)
    requires
        0 <= p <= k <= b.len(),
    ensures
        extends(
            blocks_part_step(b.take(k), p, precision, version, types),
            blocks_part_step(b, p, precision, version, types),
            p,
            k,
        ),
{
    let c = b.take(k);
    if p + 4 <= k {
        let nb = count_of(be_i32(b, p) as i32);
        lemma_blocks_extends(b, k, p + 4, precision, nb);
        if let Ok((_, q3)) = blocks_step(c, p + 4, precision, nb) {
            if q3 + 4 <= k {
                if let Ok((flag, q5)) = uchar_step(c, q3 + 4, version) {
                    lemma_inter_extends(b, k, q5, version, types, flag != 0);
                }
            }
        }
    }
}

pub proof fn lemma_topology_head_extends(
    b: Seq<u8>,
    k: int,
    p: int,
    precision: Precision,
    version: i32,
    symbols: Seq<Seq<char>>,
    types: Seq<InteractionType>,
)
    requires
        0 <= p <= k <= b.len(),
    ensures
        extends(
            topology_head_step(b.take(k), p, precision, version, symbols, types),
            topology_head_step(b, p, precision, version, symbols, types),
            p,
            k,
        ),
{
    let c = b.take(k);
    if p + 4 <= k {
        let nm = count_of(be_i32(b, p) as i32);
        lemma_moltypes_extends(b, k, p + 4, precision, version, symbols, types, nm);
        if let Ok((_, q1)) = moltypes_step(c, p + 4, precision, version, symbols, types, nm) {
            lemma_blocks_part_extends(b, k, q1, precision, version, types);
        }
    }
}

pub proof fn lemma_groups_extends(b: Seq<u8>, k: int, p: int, n: int)
    requires
        0 <= p <= k <= b.len(),
    ensures
        extends(groups_step(b.take(k), p, n), groups_step(b, p, n), p, k),
    decreases n,
{
    if n > 0 {
        lemma_groups_extends(b, k, p, n - 1);
    }
}

pub proof fn lemma_group_numbers_extends(b: Seq<u8>, k: int, p: int, version: i32, n: int)
    requires
        0 <= p <= k <= b.len(),
    ensures
        extends(group_numbers_step(b.take(k), p, version, n), group_numbers_step(b, p, version, n), p, k),
    decreases n,
{
    if n > 0 {
        lemma_group_numbers_extends(b, k, p, version, n - 1);
    }
}

pub proof fn lemma_atomtypes_extends(b: Seq<u8>, k: int, p: int, precision: Precision, version: i32)
    requires
        0 <= p <= k <= b.len(),
    ensures
        extends(atomtypes_step(b.take(k), p, precision, version), atomtypes_step(b, p, precision, version), p, k),
{
    reveal(atomtypes_step);
}

pub proof fn lemma_cmap_extends(b: Seq<u8>, k: int, p: int, precision: Precision)
    requires
        0 <= p <= k <= b.len(),
    ensures
        extends(cmap_step(b.take(k), p, precision), cmap_step(b, p, precision), p, k),
{
    reveal(cmap_step);
}

pub proof fn lemma_exclusions_extends(b: Seq<u8>, k: int, p: int, version: i32)
    requires
        0 <= p <= k <= b.len(),
    ensures
        extends(exclusions_step(b.take(k), p, version), exclusions_step(b, p, version), p, k),
{
    reveal(exclusions_step);
}

pub proof fn lemma_trailer_extends(b: Seq<u8>, k: int, p: int, precision: Precision, version: i32)
    requires
        0 <= p <= k <= b.len(),
    ensures
        extends(trailer_step(b.take(k), p, precision, version), trailer_step(b, p, precision, version), p, k),
{
    let c = b.take(k);
    lemma_atomtypes_extends(b, k, p, precision, version);
    if let Ok((_, q)) = atomtypes_step(c, p, precision, version) {
        lemma_cmap_extends(b, k, q, precision);
        if let Ok((_, q1)) = cmap_step(c, q, precision) {
            lemma_groups_extends(b, k, q1, NR_GROUP_TYPES as int);
            if let Ok((_, q2)) = groups_step(c, q1, NR_GROUP_TYPES as int) {
                lemma_groups_extends(b, k, q2, 1);
                if let Ok((_, q3)) = groups_step(c, q2, 1) {
                    lemma_group_numbers_extends(b, k, q3, version, NR_GROUP_TYPES as int);
                    if let Ok((_, q4)) = group_numbers_step(c, q3, version, NR_GROUP_TYPES as int) {
                        lemma_exclusions_extends(b, k, q4, version);
                    }
                }
            }
        }
    }
}

pub proof fn lemma_topology_extends(
    b: Seq<u8>,
    k: int,
    p: int,
    precision: Precision,
    version: i32,
    symbols: Seq<Seq<char>>,
    types: Seq<InteractionType>,
    expected: i32,
)
    requires
        0 <= p <= k <= b.len(),
    ensures
        extends(
            topology_step(b.take(k), p, precision, version, symbols, types, expected),
            topology_step(b, p, precision, version, symbols, types, expected),
            p,
            k,
        ),
{
    lemma_topology_head_extends(b, k, p, precision, version, symbols, types);
    if let Ok((_, q)) = topology_head_step(b.take(k), p, precision, version, symbols, types) {
        lemma_trailer_extends(b, k, q, precision, version);
    }
}

pub proof fn lemma_block_read_extends(b: Seq<u8>, k: int, p: int, precision: Precision, n_atoms: i32, flag: bool)
    requires
        0 <= p <= k <= b.len(),
    ensures
        extends(
            block_read_step(b.take(k), p, precision, n_atoms, flag),
            block_read_step(b, p, precision, n_atoms, flag),
            p,
            k,
        ),
{
    let w = real_width(precision);
    let n = block_len(n_atoms);
    let c = b.take(k);
    if flag && n > 0 && p + 3 * w * n <= k {
        assert forall|i: int| 0 <= i < n implies #[trigger] vector3_at(c, p + 3 * w * i, precision) == vector3_at(
            b,
            p + 3 * w * i,
            precision,
        ) by {
            assert(3 * w * i + 3 * w <= 3 * w * n) by (nonlinear_arith)
                requires
                    i < n,
                    w >= 0,
            ;
            assert(0 <= 3 * w * i) by (nonlinear_arith)
                requires
                    0 <= i,
                    w >= 0,
            ;
        }
        assert(vectors_at(c, p, n, precision) =~= vectors_at(b, p, n, precision));
    }
    assert(0 <= 3 * w * n) by (nonlinear_arith)
        requires
            0 <= n,
            w >= 0,
    ;
}

pub proof fn lemma_coordinates_extends(
    b: Seq<u8>,
    k: int,
    p: int,
    precision: Precision,
    n_atoms: i32,
    hp: bool,
    hv: bool,
    hf: bool,
)
    requires
        0 <= p <= k <= b.len(),
    ensures
        extends(
            coordinates_step(b.take(k), p, precision, n_atoms, hp, hv, hf),
            coordinates_step(b, p, precision, n_atoms, hp, hv, hf),
            p,
            k,
        ),
{
    let c = b.take(k);
    lemma_block_read_extends(b, k, p, precision, n_atoms, hp);
    if let Ok((_, q)) = block_read_step(c, p, precision, n_atoms, hp) {
        lemma_block_read_extends(b, k, q, precision, n_atoms, hv);
        if let Ok((_, q1)) = block_read_step(c, q, precision, n_atoms, hv) {
            lemma_block_read_extends(b, k, q1, precision, n_atoms, hf);
        }
    }
}

pub proof fn lemma_header_error_extends(b: Seq<u8>, k: int)
    requires
        0 <= k <= b.len(),
    ensures
        header_error(b.take(k), 0) is None ==> header_error(b, 0) is None,
{
    lemma_string4_extends(b, k, 0);
}

pub proof fn lemma_simbox_extends(b: Seq<u8>, k: int, p: int, precision: Precision)
    requires
        0 <= p <= k <= b.len(),
    ensures
        extends(simbox_step(b.take(k), p, precision), simbox_step(b, p, precision), p, k),
{
    reveal(simbox_step);
}

#[verifier::rlimit(60)]
pub proof fn lemma_header_extends(b: Seq<u8>, k: int)
    requires
        0 <= k <= b.len(),
    ensures
        extends(header_step(b.take(k), 0), header_step(b, 0), 0, k),
{
    reveal(header_step);
    lemma_header_error_extends(b, k);
    let c = b.take(k);
    lemma_string4_extends(b, k, 0);
    if let Ok((_, q)) = string4_step(c, 0) {
        if q + 12 <= k {
            lemma_string4_extends(b, k, q + 12);
        }
    }
}

pub proof fn lemma_preamble_extends(b: Seq<u8>, k: int)
    requires
        0 <= k <= b.len(),
    ensures
        extends(preamble_step(b.take(k)), preamble_step(b), 0, k),
{
    let c = b.take(k);
    lemma_header_extends(b, k);
    if let Ok((h, q)) = header_step(c, 0) {
        lemma_simbox_extends(b, k, q, h.precision);
        assert(extends(box_step(c, q, h), box_step(b, q, h), q, k));
        if let Ok((_, q1)) = box_step(c, q, h) {
            if let Ok((_, q2)) = skip_step(c, q1, real_width(h.precision) * h.n_coupling_groups) {
                if q2 + 4 <= k {
                    lemma_strings_extends(b, k, q2 + 4, h.tpr_version, count_of(be_i32(b, q2) as i32));
                }
                if let Ok((symbols, q3)) = symtab_step(c, q2, h.tpr_version) {
                    lemma_symbols_extends(b, k, q3, symbols, 0);
                    if let Ok((_, q4)) = symbol_step(c, q3, symbols) {
                        lemma_ffparams_extends(b, k, q4, h.precision, h.tpr_version);
                    }
                }
            }
        }
    }
}

pub proof fn lemma_file_extends(b: Seq<u8>, k: int)
    requires
        0 <= k <= b.len(),
    ensures
        extends(file_step(b.take(k)), file_step(b), 0, k),
{
    let c = b.take(k);
    lemma_preamble_extends(b, k);
    if let Ok(((h, sb, symbols, name, types), q)) = preamble_step(c) {
        lemma_topology_extends(b, k, q, h.precision, h.tpr_version, symbols, types, h.n_atoms);
        if let Ok((_, q1)) = topology_step(c, q, h.precision, h.tpr_version, symbols, types, h.n_atoms) {
            lemma_coordinates_extends(
                b,
                k,
                q1,
                h.precision,
                h.n_atoms,
                h.has_positions,
                h.has_velocities,
                h.has_forces,
            );
        }
    }
}

/// Truncation is detected: when decoding `b` reads every one of its bytes,
/// decoding any shorter prefix of `b` fails.
pub proof fn lemma_truncated_file_rejected(b: Seq<u8>, k: int)
    requires
        file_step(b) matches Ok((_, e)) && e == b.len(),
        0 <= k < b.len(),
    ensures
        file_model(b.take(k)) is Err,
{
    lemma_file_extends(b, k);
}

} // verus!
