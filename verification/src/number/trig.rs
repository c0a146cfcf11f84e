//! Trigonometry over the fixed-point numbers, in degrees.
//!
//! The forward functions mirror the in-game behaviour of truncating the
//! real result toward zero to a whole number: the sine and cosine of any
//! angle truncate to zero except at the quarter turns, where they are
//! exactly one or minus one, and both cases are stated exactly. The
//! tangent's whole part is computed from a fixed-point sine/cosine pair at
//! whole-degree resolution with a polynomial correction; its contract pins
//! the forced cases (multiples of the half turn, the pole) together with
//! its sign, wholeness and range, while the remaining values are an
//! approximation of the real tangent — the game's own runtime takes
//! them from floating point, which is itself approximate.
//!
//! The inverse functions return whole degrees (the truncated real result)
//! found by table search against the exact decision boundaries; out of
//! domain they return negative one, the sentinel the value layer reports
//! as a domain error. Their contracts pin the rational special points, the
//! domain condition, sign, wholeness and range.

use vstd::prelude::*;
use crate::number::{YololNumber, SCALE, trem, abs1};

verus! {

/// A full turn, a half turn and a quarter turn, in scaled degrees.
pub const FULL_TURN: i64 = 3600000;

pub const HALF_TURN: i64 = 1800000;

pub const QUARTER_TURN: i64 = 900000;

/// The Euclidean remainder expressed through the truncating one.
proof fn lemma_emod(a: int, m: int)
    requires
        m > 0,
    ensures
        a >= 0 ==> a % m == trem(a, m),
        a < 0 && trem(a, m) == 0 ==> a % m == 0,
        a < 0 && trem(a, m) != 0 ==> a % m == m + trem(a, m),
{
    crate::number::lemma_trem_abs(a, m);
    if a < 0 {
        vstd::arithmetic::div_mod::lemma_fundamental_div_mod(a, m);
        vstd::arithmetic::div_mod::lemma_fundamental_div_mod(-a, m);
        vstd::arithmetic::div_mod::lemma_mod_bound(a, m);
        vstd::arithmetic::div_mod::lemma_mod_bound(-a, m);
        let su = (a / m) + ((-a) / m);
        assert(m * ((a / m) + ((-a) / m)) == m * (a / m) + m * ((-a) / m)) by (nonlinear_arith);
        assert((a % m) + ((-a) % m) == -(m * su));
        assert(0 <= -(m * su) < 2 * m);
        assert(su == 0 || su == -1) by (nonlinear_arith)
            requires
                m > 0,
                0 <= -(m * su) < 2 * m,
        ;
        assert(m * su == 0 || m * su == -m) by (nonlinear_arith)
            requires
                su == 0 || su == -1,
        ;
    }
}

/// The Euclidean remainder of a scaled angle in a full turn.
fn emod360(inner: i64) -> (r: i64)
    ensures
        r as int == (inner as int) % (FULL_TURN as int),
        0 <= r < FULL_TURN,
{
    proof {
        lemma_emod(inner as int, FULL_TURN as int);
        vstd::arithmetic::div_mod::lemma_mod_bound(inner as int, FULL_TURN as int);
    }
    let t = inner % FULL_TURN;
    if t < 0 {
        t + FULL_TURN
    } else {
        t
    }
}

/// The Euclidean remainder of a scaled angle in a half turn.
fn emod180(inner: i64) -> (r: i64)
    ensures
        r as int == (inner as int) % (HALF_TURN as int),
        0 <= r < HALF_TURN,
{
    proof {
        lemma_emod(inner as int, HALF_TURN as int);
        vstd::arithmetic::div_mod::lemma_mod_bound(inner as int, HALF_TURN as int);
    }
    let t = inner % HALF_TURN;
    if t < 0 {
        t + HALF_TURN
    } else {
        t
    }
}


/// The sine of a whole number of degrees, at fourteen decimal places, written out.
pub open spec fn sin_t14_s(d: int) -> int {
    if d == 0 {
        0
    } else if d == 1 {
        1745240643728
    } else if d == 2 {
        3489949670250
    } else if d == 3 {
        5233595624294
    } else if d == 4 {
        6975647374413
    } else if d == 5 {
        8715574274766
    } else if d == 6 {
        10452846326765
    } else if d == 7 {
        12186934340515
    } else if d == 8 {
        13917310096007
    } else if d == 9 {
        15643446504023
    } else if d == 10 {
        17364817766693
    } else if d == 11 {
        19080899537654
    } else if d == 12 {
        20791169081776
    } else if d == 13 {
        22495105434386
    } else if d == 14 {
        24192189559967
    } else if d == 15 {
        25881904510252
    } else if d == 16 {
        27563735581700
    } else if d == 17 {
        29237170472274
    } else if d == 18 {
        30901699437495
    } else if d == 19 {
        32556815445716
    } else if d == 20 {
        34202014332567
    } else if d == 21 {
        35836794954530
    } else if d == 22 {
        37460659341591
    } else if d == 23 {
        39073112848927
    } else if d == 24 {
        40673664307580
    } else if d == 25 {
        42261826174070
    } else if d == 26 {
        43837114678908
    } else if d == 27 {
        45399049973955
    } else if d == 28 {
        46947156278589
    } else if d == 29 {
        48480962024634
    } else if d == 30 {
        50000000000000
    } else if d == 31 {
        51503807491005
    } else if d == 32 {
        52991926423320
    } else if d == 33 {
        54463903501503
    } else if d == 34 {
        55919290347075
    } else if d == 35 {
        57357643635105
    } else if d == 36 {
        58778525229247
    } else if d == 37 {
        60181502315205
    } else if d == 38 {
        61566147532566
    } else if d == 39 {
        62932039104984
    } else if d == 40 {
        64278760968654
    } else if d == 41 {
        65605902899051
    } else if d == 42 {
        66913060635886
    } else if d == 43 {
        68199836006250
    } else if d == 44 {
        69465837045900
    } else if d == 45 {
        70710678118655
    } else if d == 46 {
        71933980033865
    } else if d == 47 {
        73135370161917
    } else if d == 48 {
        74314482547739
    } else if d == 49 {
        75470958022277
    } else if d == 50 {
        76604444311898
    } else if d == 51 {
        77714596145697
    } else if d == 52 {
        78801075360672
    } else if d == 53 {
        79863551004729
    } else if d == 54 {
        80901699437495
    } else if d == 55 {
        81915204428899
    } else if d == 56 {
        82903757255504
    } else if d == 57 {
        83867056794542
    } else if d == 58 {
        84804809615643
    } else if d == 59 {
        85716730070211
    } else if d == 60 {
        86602540378444
    } else if d == 61 {
        87461970713940
    } else if d == 62 {
        88294759285893
    } else if d == 63 {
        89100652418837
    } else if d == 64 {
        89879404629917
    } else if d == 65 {
        90630778703665
    } else if d == 66 {
        91354545764260
    } else if d == 67 {
        92050485345244
    } else if d == 68 {
        92718385456679
    } else if d == 69 {
        93358042649720
    } else if d == 70 {
        93969262078591
    } else if d == 71 {
        94551857559932
    } else if d == 72 {
        95105651629515
    } else if d == 73 {
        95630475596304
    } else if d == 74 {
        96126169593832
    } else if d == 75 {
        96592582628907
    } else if d == 76 {
        97029572627600
    } else if d == 77 {
        97437006478524
    } else if d == 78 {
        97814760073381
    } else if d == 79 {
        98162718344766
    } else if d == 80 {
        98480775301221
    } else if d == 81 {
        98768834059514
    } else if d == 82 {
        99026806874157
    } else if d == 83 {
        99254615164132
    } else if d == 84 {
        99452189536827
    } else if d == 85 {
        99619469809175
    } else if d == 86 {
        99756405025982
    } else if d == 87 {
        99862953475457
    } else if d == 88 {
        99939082701910
    } else if d == 89 {
        99984769515639
    } else {
        100000000000000
    }
}

/// The cosine of a whole number of degrees, at fourteen decimal places, written out.
pub open spec fn cos_t14_s(d: int) -> int {
    if d == 0 {
        100000000000000
    } else if d == 1 {
        99984769515639
    } else if d == 2 {
        99939082701910
    } else if d == 3 {
        99862953475457
    } else if d == 4 {
        99756405025982
    } else if d == 5 {
        99619469809175
    } else if d == 6 {
        99452189536827
    } else if d == 7 {
        99254615164132
    } else if d == 8 {
        99026806874157
    } else if d == 9 {
        98768834059514
    } else if d == 10 {
        98480775301221
    } else if d == 11 {
        98162718344766
    } else if d == 12 {
        97814760073381
    } else if d == 13 {
        97437006478524
    } else if d == 14 {
        97029572627600
    } else if d == 15 {
        96592582628907
    } else if d == 16 {
        96126169593832
    } else if d == 17 {
        95630475596304
    } else if d == 18 {
        95105651629515
    } else if d == 19 {
        94551857559932
    } else if d == 20 {
        93969262078591
    } else if d == 21 {
        93358042649720
    } else if d == 22 {
        92718385456679
    } else if d == 23 {
        92050485345244
    } else if d == 24 {
        91354545764260
    } else if d == 25 {
        90630778703665
    } else if d == 26 {
        89879404629917
    } else if d == 27 {
        89100652418837
    } else if d == 28 {
        88294759285893
    } else if d == 29 {
        87461970713940
    } else if d == 30 {
        86602540378444
    } else if d == 31 {
        85716730070211
    } else if d == 32 {
        84804809615643
    } else if d == 33 {
        83867056794542
    } else if d == 34 {
        82903757255504
    } else if d == 35 {
        81915204428899
    } else if d == 36 {
        80901699437495
    } else if d == 37 {
        79863551004729
    } else if d == 38 {
        78801075360672
    } else if d == 39 {
        77714596145697
    } else if d == 40 {
        76604444311898
    } else if d == 41 {
        75470958022277
    } else if d == 42 {
        74314482547739
    } else if d == 43 {
        73135370161917
    } else if d == 44 {
        71933980033865
    } else if d == 45 {
        70710678118655
    } else if d == 46 {
        69465837045900
    } else if d == 47 {
        68199836006250
    } else if d == 48 {
        66913060635886
    } else if d == 49 {
        65605902899051
    } else if d == 50 {
        64278760968654
    } else if d == 51 {
        62932039104984
    } else if d == 52 {
        61566147532566
    } else if d == 53 {
        60181502315205
    } else if d == 54 {
        58778525229247
    } else if d == 55 {
        57357643635105
    } else if d == 56 {
        55919290347075
    } else if d == 57 {
        54463903501503
    } else if d == 58 {
        52991926423320
    } else if d == 59 {
        51503807491005
    } else if d == 60 {
        50000000000000
    } else if d == 61 {
        48480962024634
    } else if d == 62 {
        46947156278589
    } else if d == 63 {
        45399049973955
    } else if d == 64 {
        43837114678908
    } else if d == 65 {
        42261826174070
    } else if d == 66 {
        40673664307580
    } else if d == 67 {
        39073112848927
    } else if d == 68 {
        37460659341591
    } else if d == 69 {
        35836794954530
    } else if d == 70 {
        34202014332567
    } else if d == 71 {
        32556815445716
    } else if d == 72 {
        30901699437495
    } else if d == 73 {
        29237170472274
    } else if d == 74 {
        27563735581700
    } else if d == 75 {
        25881904510252
    } else if d == 76 {
        24192189559967
    } else if d == 77 {
        22495105434386
    } else if d == 78 {
        20791169081776
    } else if d == 79 {
        19080899537654
    } else if d == 80 {
        17364817766693
    } else if d == 81 {
        15643446504023
    } else if d == 82 {
        13917310096007
    } else if d == 83 {
        12186934340515
    } else if d == 84 {
        10452846326765
    } else if d == 85 {
        8715574274766
    } else if d == 86 {
        6975647374413
    } else if d == 87 {
        5233595624294
    } else if d == 88 {
        3489949670250
    } else if d == 89 {
        1745240643728
    } else {
        0
    }
}

/// The least scaled value whose arcsine reaches each whole degree, written out.
pub open spec fn sin_ceil4_s(d: int) -> int {
    if d == 0 {
        0
    } else if d == 1 {
        175
    } else if d == 2 {
        349
    } else if d == 3 {
        524
    } else if d == 4 {
        698
    } else if d == 5 {
        872
    } else if d == 6 {
        1046
    } else if d == 7 {
        1219
    } else if d == 8 {
        1392
    } else if d == 9 {
        1565
    } else if d == 10 {
        1737
    } else if d == 11 {
        1909
    } else if d == 12 {
        2080
    } else if d == 13 {
        2250
    } else if d == 14 {
        2420
    } else if d == 15 {
        2589
    } else if d == 16 {
        2757
    } else if d == 17 {
        2924
    } else if d == 18 {
        3091
    } else if d == 19 {
        3256
    } else if d == 20 {
        3421
    } else if d == 21 {
        3584
    } else if d == 22 {
        3747
    } else if d == 23 {
        3908
    } else if d == 24 {
        4068
    } else if d == 25 {
        4227
    } else if d == 26 {
        4384
    } else if d == 27 {
        4540
    } else if d == 28 {
        4695
    } else if d == 29 {
        4849
    } else if d == 30 {
        5000
    } else if d == 31 {
        5151
    } else if d == 32 {
        5300
    } else if d == 33 {
        5447
    } else if d == 34 {
        5592
    } else if d == 35 {
        5736
    } else if d == 36 {
        5878
    } else if d == 37 {
        6019
    } else if d == 38 {
        6157
    } else if d == 39 {
        6294
    } else if d == 40 {
        6428
    } else if d == 41 {
        6561
    } else if d == 42 {
        6692
    } else if d == 43 {
        6820
    } else if d == 44 {
        6947
    } else if d == 45 {
        7072
    } else if d == 46 {
        7194
    } else if d == 47 {
        7314
    } else if d == 48 {
        7432
    } else if d == 49 {
        7548
    } else if d == 50 {
        7661
    } else if d == 51 {
        7772
    } else if d == 52 {
        7881
    } else if d == 53 {
        7987
    } else if d == 54 {
        8091
    } else if d == 55 {
        8192
    } else if d == 56 {
        8291
    } else if d == 57 {
        8387
    } else if d == 58 {
        8481
    } else if d == 59 {
        8572
    } else if d == 60 {
        8661
    } else if d == 61 {
        8747
    } else if d == 62 {
        8830
    } else if d == 63 {
        8911
    } else if d == 64 {
        8988
    } else if d == 65 {
        9064
    } else if d == 66 {
        9136
    } else if d == 67 {
        9206
    } else if d == 68 {
        9272
    } else if d == 69 {
        9336
    } else if d == 70 {
        9397
    } else if d == 71 {
        9456
    } else if d == 72 {
        9511
    } else if d == 73 {
        9564
    } else if d == 74 {
        9613
    } else if d == 75 {
        9660
    } else if d == 76 {
        9703
    } else if d == 77 {
        9744
    } else if d == 78 {
        9782
    } else if d == 79 {
        9817
    } else if d == 80 {
        9849
    } else if d == 81 {
        9877
    } else if d == 82 {
        9903
    } else if d == 83 {
        9926
    } else if d == 84 {
        9946
    } else if d == 85 {
        9962
    } else if d == 86 {
        9976
    } else if d == 87 {
        9987
    } else if d == 88 {
        9994
    } else if d == 89 {
        9999
    } else {
        10000
    }
}

/// The greatest scaled value whose arccosine still reaches each degree, written out.
pub open spec fn cos_floor4_s(d: int) -> int {
    if d == 0 {
        10000
    } else if d == 1 {
        9998
    } else if d == 2 {
        9993
    } else if d == 3 {
        9986
    } else if d == 4 {
        9975
    } else if d == 5 {
        9961
    } else if d == 6 {
        9945
    } else if d == 7 {
        9925
    } else if d == 8 {
        9902
    } else if d == 9 {
        9876
    } else if d == 10 {
        9848
    } else if d == 11 {
        9816
    } else if d == 12 {
        9781
    } else if d == 13 {
        9743
    } else if d == 14 {
        9702
    } else if d == 15 {
        9659
    } else if d == 16 {
        9612
    } else if d == 17 {
        9563
    } else if d == 18 {
        9510
    } else if d == 19 {
        9455
    } else if d == 20 {
        9396
    } else if d == 21 {
        9335
    } else if d == 22 {
        9271
    } else if d == 23 {
        9205
    } else if d == 24 {
        9135
    } else if d == 25 {
        9063
    } else if d == 26 {
        8987
    } else if d == 27 {
        8910
    } else if d == 28 {
        8829
    } else if d == 29 {
        8746
    } else if d == 30 {
        8660
    } else if d == 31 {
        8571
    } else if d == 32 {
        8480
    } else if d == 33 {
        8386
    } else if d == 34 {
        8290
    } else if d == 35 {
        8191
    } else if d == 36 {
        8090
    } else if d == 37 {
        7986
    } else if d == 38 {
        7880
    } else if d == 39 {
        7771
    } else if d == 40 {
        7660
    } else if d == 41 {
        7547
    } else if d == 42 {
        7431
    } else if d == 43 {
        7313
    } else if d == 44 {
        7193
    } else if d == 45 {
        7071
    } else if d == 46 {
        6946
    } else if d == 47 {
        6819
    } else if d == 48 {
        6691
    } else if d == 49 {
        6560
    } else if d == 50 {
        6427
    } else if d == 51 {
        6293
    } else if d == 52 {
        6156
    } else if d == 53 {
        6018
    } else if d == 54 {
        5877
    } else if d == 55 {
        5735
    } else if d == 56 {
        5591
    } else if d == 57 {
        5446
    } else if d == 58 {
        5299
    } else if d == 59 {
        5150
    } else if d == 60 {
        5000
    } else if d == 61 {
        4848
    } else if d == 62 {
        4694
    } else if d == 63 {
        4539
    } else if d == 64 {
        4383
    } else if d == 65 {
        4226
    } else if d == 66 {
        4067
    } else if d == 67 {
        3907
    } else if d == 68 {
        3746
    } else if d == 69 {
        3583
    } else if d == 70 {
        3420
    } else if d == 71 {
        3255
    } else if d == 72 {
        3090
    } else if d == 73 {
        2923
    } else if d == 74 {
        2756
    } else if d == 75 {
        2588
    } else if d == 76 {
        2419
    } else if d == 77 {
        2249
    } else if d == 78 {
        2079
    } else if d == 79 {
        1908
    } else if d == 80 {
        1736
    } else if d == 81 {
        1564
    } else if d == 82 {
        1391
    } else if d == 83 {
        1218
    } else if d == 84 {
        1045
    } else if d == 85 {
        871
    } else if d == 86 {
        697
    } else if d == 87 {
        523
    } else if d == 88 {
        348
    } else if d == 89 {
        174
    } else {
        0
    }
}

/// The least scaled value whose arctangent reaches each whole degree, written out.
pub open spec fn tan_ceil4_s(d: int) -> int {
    if d == 0 {
        0
    } else if d == 1 {
        175
    } else if d == 2 {
        350
    } else if d == 3 {
        525
    } else if d == 4 {
        700
    } else if d == 5 {
        875
    } else if d == 6 {
        1052
    } else if d == 7 {
        1228
    } else if d == 8 {
        1406
    } else if d == 9 {
        1584
    } else if d == 10 {
        1764
    } else if d == 11 {
        1944
    } else if d == 12 {
        2126
    } else if d == 13 {
        2309
    } else if d == 14 {
        2494
    } else if d == 15 {
        2680
    } else if d == 16 {
        2868
    } else if d == 17 {
        3058
    } else if d == 18 {
        3250
    } else if d == 19 {
        3444
    } else if d == 20 {
        3640
    } else if d == 21 {
        3839
    } else if d == 22 {
        4041
    } else if d == 23 {
        4245
    } else if d == 24 {
        4453
    } else if d == 25 {
        4664
    } else if d == 26 {
        4878
    } else if d == 27 {
        5096
    } else if d == 28 {
        5318
    } else if d == 29 {
        5544
    } else if d == 30 {
        5774
    } else if d == 31 {
        6009
    } else if d == 32 {
        6249
    } else if d == 33 {
        6495
    } else if d == 34 {
        6746
    } else if d == 35 {
        7003
    } else if d == 36 {
        7266
    } else if d == 37 {
        7536
    } else if d == 38 {
        7813
    } else if d == 39 {
        8098
    } else if d == 40 {
        8391
    } else if d == 41 {
        8693
    } else if d == 42 {
        9005
    } else if d == 43 {
        9326
    } else if d == 44 {
        9657
    } else if d == 45 {
        10000
    } else if d == 46 {
        10356
    } else if d == 47 {
        10724
    } else if d == 48 {
        11107
    } else if d == 49 {
        11504
    } else if d == 50 {
        11918
    } else if d == 51 {
        12349
    } else if d == 52 {
        12800
    } else if d == 53 {
        13271
    } else if d == 54 {
        13764
    } else if d == 55 {
        14282
    } else if d == 56 {
        14826
    } else if d == 57 {
        15399
    } else if d == 58 {
        16004
    } else if d == 59 {
        16643
    } else if d == 60 {
        17321
    } else if d == 61 {
        18041
    } else if d == 62 {
        18808
    } else if d == 63 {
        19627
    } else if d == 64 {
        20504
    } else if d == 65 {
        21446
    } else if d == 66 {
        22461
    } else if d == 67 {
        23559
    } else if d == 68 {
        24751
    } else if d == 69 {
        26051
    } else if d == 70 {
        27475
    } else if d == 71 {
        29043
    } else if d == 72 {
        30777
    } else if d == 73 {
        32709
    } else if d == 74 {
        34875
    } else if d == 75 {
        37321
    } else if d == 76 {
        40108
    } else if d == 77 {
        43315
    } else if d == 78 {
        47047
    } else if d == 79 {
        51446
    } else if d == 80 {
        56713
    } else if d == 81 {
        63138
    } else if d == 82 {
        71154
    } else if d == 83 {
        81444
    } else if d == 84 {
        95144
    } else if d == 85 {
        114301
    } else if d == 86 {
        143007
    } else if d == 87 {
        190812
    } else if d == 88 {
        286363
    } else {
        572900
    }
}

/// The sine of a whole number of degrees, at fourteen decimal places.
fn sin_t14(d: u64) -> (r: i128)
    requires
        d <= 90,
    ensures
        r as int == sin_t14_s(d as int),
        0 <= r <= 100000000000000,
{
    match d {
        0 => 0,
        1 => 1745240643728,
        2 => 3489949670250,
        3 => 5233595624294,
        4 => 6975647374413,
        5 => 8715574274766,
        6 => 10452846326765,
        7 => 12186934340515,
        8 => 13917310096007,
        9 => 15643446504023,
        10 => 17364817766693,
        11 => 19080899537654,
        12 => 20791169081776,
        13 => 22495105434386,
        14 => 24192189559967,
        15 => 25881904510252,
        16 => 27563735581700,
        17 => 29237170472274,
        18 => 30901699437495,
        19 => 32556815445716,
        20 => 34202014332567,
        21 => 35836794954530,
        22 => 37460659341591,
        23 => 39073112848927,
        24 => 40673664307580,
        25 => 42261826174070,
        26 => 43837114678908,
        27 => 45399049973955,
        28 => 46947156278589,
        29 => 48480962024634,
        30 => 50000000000000,
        31 => 51503807491005,
        32 => 52991926423320,
        33 => 54463903501503,
        34 => 55919290347075,
        35 => 57357643635105,
        36 => 58778525229247,
        37 => 60181502315205,
        38 => 61566147532566,
        39 => 62932039104984,
        40 => 64278760968654,
        41 => 65605902899051,
        42 => 66913060635886,
        43 => 68199836006250,
        44 => 69465837045900,
        45 => 70710678118655,
        46 => 71933980033865,
        47 => 73135370161917,
        48 => 74314482547739,
        49 => 75470958022277,
        50 => 76604444311898,
        51 => 77714596145697,
        52 => 78801075360672,
        53 => 79863551004729,
        54 => 80901699437495,
        55 => 81915204428899,
        56 => 82903757255504,
        57 => 83867056794542,
        58 => 84804809615643,
        59 => 85716730070211,
        60 => 86602540378444,
        61 => 87461970713940,
        62 => 88294759285893,
        63 => 89100652418837,
        64 => 89879404629917,
        65 => 90630778703665,
        66 => 91354545764260,
        67 => 92050485345244,
        68 => 92718385456679,
        69 => 93358042649720,
        70 => 93969262078591,
        71 => 94551857559932,
        72 => 95105651629515,
        73 => 95630475596304,
        74 => 96126169593832,
        75 => 96592582628907,
        76 => 97029572627600,
        77 => 97437006478524,
        78 => 97814760073381,
        79 => 98162718344766,
        80 => 98480775301221,
        81 => 98768834059514,
        82 => 99026806874157,
        83 => 99254615164132,
        84 => 99452189536827,
        85 => 99619469809175,
        86 => 99756405025982,
        87 => 99862953475457,
        88 => 99939082701910,
        89 => 99984769515639,
        _ => 100000000000000,
    }
}

/// The cosine of a whole number of degrees, at fourteen decimal places.
fn cos_t14(d: u64) -> (r: i128)
    requires
        d <= 90,
    ensures
        r as int == cos_t14_s(d as int),
        0 <= r <= 100000000000000,
{
    match d {
        0 => 100000000000000,
        1 => 99984769515639,
        2 => 99939082701910,
        3 => 99862953475457,
        4 => 99756405025982,
        5 => 99619469809175,
        6 => 99452189536827,
        7 => 99254615164132,
        8 => 99026806874157,
        9 => 98768834059514,
        10 => 98480775301221,
        11 => 98162718344766,
        12 => 97814760073381,
        13 => 97437006478524,
        14 => 97029572627600,
        15 => 96592582628907,
        16 => 96126169593832,
        17 => 95630475596304,
        18 => 95105651629515,
        19 => 94551857559932,
        20 => 93969262078591,
        21 => 93358042649720,
        22 => 92718385456679,
        23 => 92050485345244,
        24 => 91354545764260,
        25 => 90630778703665,
        26 => 89879404629917,
        27 => 89100652418837,
        28 => 88294759285893,
        29 => 87461970713940,
        30 => 86602540378444,
        31 => 85716730070211,
        32 => 84804809615643,
        33 => 83867056794542,
        34 => 82903757255504,
        35 => 81915204428899,
        36 => 80901699437495,
        37 => 79863551004729,
        38 => 78801075360672,
        39 => 77714596145697,
        40 => 76604444311898,
        41 => 75470958022277,
        42 => 74314482547739,
        43 => 73135370161917,
        44 => 71933980033865,
        45 => 70710678118655,
        46 => 69465837045900,
        47 => 68199836006250,
        48 => 66913060635886,
        49 => 65605902899051,
        50 => 64278760968654,
        51 => 62932039104984,
        52 => 61566147532566,
        53 => 60181502315205,
        54 => 58778525229247,
        55 => 57357643635105,
        56 => 55919290347075,
        57 => 54463903501503,
        58 => 52991926423320,
        59 => 51503807491005,
        60 => 50000000000000,
        61 => 48480962024634,
        62 => 46947156278589,
        63 => 45399049973955,
        64 => 43837114678908,
        65 => 42261826174070,
        66 => 40673664307580,
        67 => 39073112848927,
        68 => 37460659341591,
        69 => 35836794954530,
        70 => 34202014332567,
        71 => 32556815445716,
        72 => 30901699437495,
        73 => 29237170472274,
        74 => 27563735581700,
        75 => 25881904510252,
        76 => 24192189559967,
        77 => 22495105434386,
        78 => 20791169081776,
        79 => 19080899537654,
        80 => 17364817766693,
        81 => 15643446504023,
        82 => 13917310096007,
        83 => 12186934340515,
        84 => 10452846326765,
        85 => 8715574274766,
        86 => 6975647374413,
        87 => 5233595624294,
        88 => 3489949670250,
        89 => 1745240643728,
        _ => 0,
    }
}

/// The least scaled value whose arcsine reaches each whole degree.
fn sin_ceil4(d: u64) -> (r: u64)
    requires
        d <= 90,
    ensures
        r as int == sin_ceil4_s(d as int),
        r <= 10000,
{
    match d {
        0 => 0,
        1 => 175,
        2 => 349,
        3 => 524,
        4 => 698,
        5 => 872,
        6 => 1046,
        7 => 1219,
        8 => 1392,
        9 => 1565,
        10 => 1737,
        11 => 1909,
        12 => 2080,
        13 => 2250,
        14 => 2420,
        15 => 2589,
        16 => 2757,
        17 => 2924,
        18 => 3091,
        19 => 3256,
        20 => 3421,
        21 => 3584,
        22 => 3747,
        23 => 3908,
        24 => 4068,
        25 => 4227,
        26 => 4384,
        27 => 4540,
        28 => 4695,
        29 => 4849,
        30 => 5000,
        31 => 5151,
        32 => 5300,
        33 => 5447,
        34 => 5592,
        35 => 5736,
        36 => 5878,
        37 => 6019,
        38 => 6157,
        39 => 6294,
        40 => 6428,
        41 => 6561,
        42 => 6692,
        43 => 6820,
        44 => 6947,
        45 => 7072,
        46 => 7194,
        47 => 7314,
        48 => 7432,
        49 => 7548,
        50 => 7661,
        51 => 7772,
        52 => 7881,
        53 => 7987,
        54 => 8091,
        55 => 8192,
        56 => 8291,
        57 => 8387,
        58 => 8481,
        59 => 8572,
        60 => 8661,
        61 => 8747,
        62 => 8830,
        63 => 8911,
        64 => 8988,
        65 => 9064,
        66 => 9136,
        67 => 9206,
        68 => 9272,
        69 => 9336,
        70 => 9397,
        71 => 9456,
        72 => 9511,
        73 => 9564,
        74 => 9613,
        75 => 9660,
        76 => 9703,
        77 => 9744,
        78 => 9782,
        79 => 9817,
        80 => 9849,
        81 => 9877,
        82 => 9903,
        83 => 9926,
        84 => 9946,
        85 => 9962,
        86 => 9976,
        87 => 9987,
        88 => 9994,
        89 => 9999,
        _ => 10000,
    }
}

/// The greatest scaled value whose arccosine still reaches each degree.
fn cos_floor4(d: u64) -> (r: u64)
    requires
        d <= 90,
    ensures
        r as int == cos_floor4_s(d as int),
        r <= 10000,
{
    match d {
        0 => 10000,
        1 => 9998,
        2 => 9993,
        3 => 9986,
        4 => 9975,
        5 => 9961,
        6 => 9945,
        7 => 9925,
        8 => 9902,
        9 => 9876,
        10 => 9848,
        11 => 9816,
        12 => 9781,
        13 => 9743,
        14 => 9702,
        15 => 9659,
        16 => 9612,
        17 => 9563,
        18 => 9510,
        19 => 9455,
        20 => 9396,
        21 => 9335,
        22 => 9271,
        23 => 9205,
        24 => 9135,
        25 => 9063,
        26 => 8987,
        27 => 8910,
        28 => 8829,
        29 => 8746,
        30 => 8660,
        31 => 8571,
        32 => 8480,
        33 => 8386,
        34 => 8290,
        35 => 8191,
        36 => 8090,
        37 => 7986,
        38 => 7880,
        39 => 7771,
        40 => 7660,
        41 => 7547,
        42 => 7431,
        43 => 7313,
        44 => 7193,
        45 => 7071,
        46 => 6946,
        47 => 6819,
        48 => 6691,
        49 => 6560,
        50 => 6427,
        51 => 6293,
        52 => 6156,
        53 => 6018,
        54 => 5877,
        55 => 5735,
        56 => 5591,
        57 => 5446,
        58 => 5299,
        59 => 5150,
        60 => 5000,
        61 => 4848,
        62 => 4694,
        63 => 4539,
        64 => 4383,
        65 => 4226,
        66 => 4067,
        67 => 3907,
        68 => 3746,
        69 => 3583,
        70 => 3420,
        71 => 3255,
        72 => 3090,
        73 => 2923,
        74 => 2756,
        75 => 2588,
        76 => 2419,
        77 => 2249,
        78 => 2079,
        79 => 1908,
        80 => 1736,
        81 => 1564,
        82 => 1391,
        83 => 1218,
        84 => 1045,
        85 => 871,
        86 => 697,
        87 => 523,
        88 => 348,
        89 => 174,
        _ => 0,
    }
}

/// The least scaled value whose arctangent reaches each whole degree.
fn tan_ceil4(d: u64) -> (r: u64)
    requires
        d <= 89,
    ensures
        r as int == tan_ceil4_s(d as int),
        r <= 572900,
{
    match d {
        0 => 0,
        1 => 175,
        2 => 350,
        3 => 525,
        4 => 700,
        5 => 875,
        6 => 1052,
        7 => 1228,
        8 => 1406,
        9 => 1584,
        10 => 1764,
        11 => 1944,
        12 => 2126,
        13 => 2309,
        14 => 2494,
        15 => 2680,
        16 => 2868,
        17 => 3058,
        18 => 3250,
        19 => 3444,
        20 => 3640,
        21 => 3839,
        22 => 4041,
        23 => 4245,
        24 => 4453,
        25 => 4664,
        26 => 4878,
        27 => 5096,
        28 => 5318,
        29 => 5544,
        30 => 5774,
        31 => 6009,
        32 => 6249,
        33 => 6495,
        34 => 6746,
        35 => 7003,
        36 => 7266,
        37 => 7536,
        38 => 7813,
        39 => 8098,
        40 => 8391,
        41 => 8693,
        42 => 9005,
        43 => 9326,
        44 => 9657,
        45 => 10000,
        46 => 10356,
        47 => 10724,
        48 => 11107,
        49 => 11504,
        50 => 11918,
        51 => 12349,
        52 => 12800,
        53 => 13271,
        54 => 13764,
        55 => 14282,
        56 => 14826,
        57 => 15399,
        58 => 16004,
        59 => 16643,
        60 => 17321,
        61 => 18041,
        62 => 18808,
        63 => 19627,
        64 => 20504,
        65 => 21446,
        66 => 22461,
        67 => 23559,
        68 => 24751,
        69 => 26051,
        70 => 27475,
        71 => 29043,
        72 => 30777,
        73 => 32709,
        74 => 34875,
        75 => 37321,
        76 => 40108,
        77 => 43315,
        78 => 47047,
        79 => 51446,
        80 => 56713,
        81 => 63138,
        82 => 71154,
        83 => 81444,
        84 => 95144,
        85 => 114301,
        86 => 143007,
        87 => 190812,
        88 => 286363,
        _ => 572900,
    }
}

/// The sine of an angle in scaled degrees, truncated to a whole number.
pub open spec fn sin_spec(x: int) -> int {
    if x % (FULL_TURN as int) == QUARTER_TURN as int {
        SCALE as int
    } else if x % (FULL_TURN as int) == 3 * QUARTER_TURN as int {
        -(SCALE as int)
    } else {
        0
    }
}

/// The cosine of an angle in scaled degrees, truncated to a whole number.
pub open spec fn cos_spec(x: int) -> int {
    if x % (FULL_TURN as int) == 0 {
        SCALE as int
    } else if x % (FULL_TURN as int) == HALF_TURN as int {
        -(SCALE as int)
    } else {
        0
    }
}

/// The truncated tangent of an angle in scaled degrees: zero on the half
/// turn's multiples, saturated at the pole, elsewhere the sign of the
/// half-turn position with the fixed-point magnitude of [`tan_mag_v`].
pub open spec fn tan_v(x: int) -> int {
    let m = x % (HALF_TURN as int);
    if m == 0 {
        0
    } else if m == QUARTER_TURN as int {
        i64::MAX as int
    } else if m < QUARTER_TURN as int {
        tan_mag_v(m) * SCALE as int
    } else {
        -(tan_mag_v(HALF_TURN as int - m) * SCALE as int)
    }
}

/// The truncated arcsine of a scaled value, in scaled whole degrees; out
/// of domain the negative-one sentinel.
pub open spec fn asin_v(x: int) -> int {
    if x > SCALE as int || x < -(SCALE as int) {
        -(SCALE as int)
    } else {
        let mag = abs1(x);
        let d = if mag == 10000 {
            90int
        } else if mag == 5000 {
            30int
        } else if mag == 0 {
            0int
        } else {
            asin_search_v(mag, 0)
        };
        if x < 0 {
            -(d * SCALE as int)
        } else {
            d * SCALE as int
        }
    }
}

/// The truncated arccosine of a scaled value, in scaled whole degrees;
/// out of domain the negative-one sentinel.
pub open spec fn acos_v(x: int) -> int {
    if x > SCALE as int || x < -(SCALE as int) {
        -(SCALE as int)
    } else {
        let d = if x == SCALE as int {
            0int
        } else if x == 5000 {
            60int
        } else if x == 0 {
            90int
        } else if x == -5000 {
            120int
        } else if x == -(SCALE as int) {
            180int
        } else if x > 0 {
            acos_search_v(x, 0)
        } else {
            179 - acos_search_v(-x, 0)
        };
        d * SCALE as int
    }
}

/// The truncated arctangent of a scaled value, in scaled whole degrees.
pub open spec fn atan_v(x: int) -> int {
    let mag = abs1(x);
    let d = if mag == 0 {
        0int
    } else if mag == 10000 {
        45int
    } else {
        atan_search_v(mag, 0)
    };
    if x < 0 {
        -(d * SCALE as int)
    } else {
        d * SCALE as int
    }
}

/// The largest whole degree whose sine boundary does not pass the value,
/// searching upward.
pub open spec fn asin_search_v(mag: int, n: int) -> int
    decreases 89 - n when n <= 89
{
    if n >= 89 {
        89
    } else if sin_ceil4_s(n + 1) <= mag {
        asin_search_v(mag, n + 1)
    } else {
        n
    }
}

/// The whole degree whose cosine band holds the value, searching upward.
pub open spec fn acos_search_v(mag: int, n: int) -> int
    decreases 89 - n when n <= 89
{
    if n >= 89 {
        89
    } else if cos_floor4_s(n + 1) >= mag {
        acos_search_v(mag, n + 1)
    } else {
        n
    }
}

/// The largest whole degree whose tangent boundary does not pass the
/// value, searching upward.
pub open spec fn atan_search_v(mag: int, n: int) -> int
    decreases 89 - n when n <= 89
{
    if n >= 89 {
        89
    } else if tan_ceil4_s(n + 1) <= mag {
        atan_search_v(mag, n + 1)
    } else {
        n
    }
}

impl YololNumber {
    /// The sine of the angle in degrees, truncated to a whole number: one
    /// at a quarter turn, minus one at three quarters, zero elsewhere.
    pub fn sin(self) -> (r: Self)
        ensures
            r@ == sin_spec(self@),
    {
        let m = emod360(self.to_inner());
        if m == QUARTER_TURN {
            YololNumber::new(SCALE)
        } else if m == 3 * QUARTER_TURN {
            YololNumber::new(-SCALE)
        } else {
            YololNumber::new(0)
        }
    }

    /// The cosine of the angle in degrees, truncated to a whole number:
    /// one at a full turn, minus one at a half turn, zero elsewhere.
    pub fn cos(self) -> (r: Self)
        ensures
            r@ == cos_spec(self@),
    {
        let m = emod360(self.to_inner());
        if m == 0 {
            YololNumber::new(SCALE)
        } else if m == HALF_TURN {
            YololNumber::new(-SCALE)
        } else {
            YololNumber::new(0)
        }
    }

    /// The tangent of the angle in degrees, truncated to a whole number:
    /// the value [`tan_v`] fixes. The multiples of the half turn and the
    /// pole are exact; other values are a fixed-point approximation of
    /// the real tangent whose sign, wholeness and range the remaining
    /// clauses pin.
    pub fn tan(self) -> (r: Self)
        ensures
            r@ == tan_v(self@),
            self@ % (HALF_TURN as int) == 0 ==> r@ == 0,
            self@ % (HALF_TURN as int) == QUARTER_TURN as int ==> r@ == i64::MAX,
            r@ == i64::MAX || r@ % (SCALE as int) == 0,
            (0 < self@ % (HALF_TURN as int) && self@ % (HALF_TURN as int) < (
            QUARTER_TURN as int)) ==> (0 <= r@ <= 10000000 * SCALE as int),
            ((QUARTER_TURN as int) < self@ % (HALF_TURN as int)) ==> (-10000000 * (SCALE as int)
                <= r@ <= 0),
    {
        let m = emod180(self.to_inner());
        if m == 0 {
            return YololNumber::new(0);
        }
        if m == QUARTER_TURN {
            return YololNumber::new(i64::MAX);
        }
        let (angle, neg): (i64, bool) = if m < QUARTER_TURN {
            (m, false)
        } else {
            (HALF_TURN - m, true)
        };
        let mag: i64 = tan_mag(angle as u64);
        proof {
            vstd::arithmetic::div_mod::lemma_mod_multiples_basic(mag as int, SCALE as int);
            vstd::arithmetic::div_mod::lemma_mod_multiples_basic(-(mag as int), SCALE as int);
        }
        if neg {
            YololNumber::new(-(mag * SCALE))
        } else {
            YololNumber::new(mag * SCALE)
        }
    }

    /// The arcsine in whole degrees, the truncated real result, the value
    /// [`asin_v`] fixes; out of domain the negative-one sentinel that the
    /// value layer reports as a domain error.
    pub fn arcsin(self) -> (r: Self)
        ensures
            r@ == asin_v(self@),
            self@ > SCALE as int || self@ < -(SCALE as int) ==> r@ == -(SCALE as int),
            self@ == SCALE as int ==> r@ == 90 * SCALE as int,
            self@ == -(SCALE as int) ==> r@ == -90 * (SCALE as int),
            self@ == 0 ==> r@ == 0,
            self@ == (SCALE / 2) as int ==> r@ == 30 * SCALE as int,
            self@ == -((SCALE / 2) as int) ==> r@ == -30 * (SCALE as int),
            r@ % (SCALE as int) == 0,
            -(SCALE as int) <= self@ <= SCALE as int ==> -90 * (SCALE as int) <= r@ <= 90 * (
            SCALE as int),
            0 <= self@ <= SCALE as int ==> r@ >= 0,
            -(SCALE as int) <= self@ < 0 ==> r@ <= 0,
    {
        let inner = self.to_inner();
        if inner > SCALE || inner < -SCALE {
            proof {
                neg_scale_whole();
            }
            return YololNumber::new(-SCALE);
        }
        let neg = inner < 0;
        let mag: u64 = if neg {
            (-inner) as u64
        } else {
            inner as u64
        };
        let d: i64 = if mag == 10000 {
            90
        } else if mag == 5000 {
            30
        } else if mag == 0 {
            0
        } else {
            arcsin_search(mag)
        };
        proof {
            vstd::arithmetic::div_mod::lemma_mod_multiples_basic(d as int, SCALE as int);
            vstd::arithmetic::div_mod::lemma_mod_multiples_basic(-(d as int), SCALE as int);
        }
        if neg {
            YololNumber::new(-(d * SCALE))
        } else {
            YololNumber::new(d * SCALE)
        }
    }

    /// The arccosine in whole degrees, the truncated real result, the
    /// value [`acos_v`] fixes; out of domain the negative-one sentinel
    /// that the value layer reports as a domain error.
    pub fn arccos(self) -> (r: Self)
        ensures
            r@ == acos_v(self@),
            self@ > SCALE as int || self@ < -(SCALE as int) ==> r@ == -(SCALE as int),
            self@ == SCALE as int ==> r@ == 0,
            self@ == (SCALE / 2) as int ==> r@ == 60 * SCALE as int,
            self@ == 0 ==> r@ == 90 * SCALE as int,
            self@ == -((SCALE / 2) as int) ==> r@ == 120 * SCALE as int,
            self@ == -(SCALE as int) ==> r@ == 180 * SCALE as int,
            r@ % (SCALE as int) == 0,
            -(SCALE as int) <= self@ <= SCALE as int ==> 0 <= r@ <= 180 * (SCALE as int),
    {
        let inner = self.to_inner();
        if inner > SCALE || inner < -SCALE {
            proof {
                neg_scale_whole();
            }
            return YololNumber::new(-SCALE);
        }
        let d: i64 = if inner == SCALE {
            0
        } else if inner == 5000 {
            60
        } else if inner == 0 {
            90
        } else if inner == -5000 {
            120
        } else if inner == -SCALE {
            180
        } else if inner > 0 {
            arccos_search(inner as u64)
        } else {
            179 - arccos_search((-inner) as u64)
        };
        proof {
            vstd::arithmetic::div_mod::lemma_mod_multiples_basic(d as int, SCALE as int);
        }
        YololNumber::new(d * SCALE)
    }

    /// The arctangent in whole degrees, the truncated real result, the
    /// value [`atan_v`] fixes; it is defined for every value.
    pub fn arctan(self) -> (r: Self)
        ensures
            r@ == atan_v(self@),
            self@ == 0 ==> r@ == 0,
            self@ == SCALE as int ==> r@ == 45 * SCALE as int,
            self@ == -(SCALE as int) ==> r@ == -45 * (SCALE as int),
            r@ % (SCALE as int) == 0,
            -90 * (SCALE as int) <= r@ <= 90 * (SCALE as int),
            self@ >= 0 ==> r@ >= 0,
            self@ <= 0 ==> r@ <= 0,
    {
        let inner = self.to_inner();
        let neg = inner < 0;
        let mag: u64 = if inner == i64::MIN {
            0x8000000000000000u64
        } else if neg {
            (-inner) as u64
        } else {
            inner as u64
        };
        let d: i64 = if mag == 0 {
            0
        } else if mag == 10000 {
            45
        } else {
            arctan_search(mag)
        };
        proof {
            vstd::arithmetic::div_mod::lemma_mod_multiples_basic(d as int, SCALE as int);
            vstd::arithmetic::div_mod::lemma_mod_multiples_basic(-(d as int), SCALE as int);
        }
        if neg {
            YololNumber::new(-(d * SCALE))
        } else {
            YololNumber::new(d * SCALE)
        }
    }
}

/// The sentinel is a whole multiple of the scale.
proof fn neg_scale_whole()
    ensures
        (-(SCALE as int)) % (SCALE as int) == 0,
{
    vstd::arithmetic::div_mod::lemma_mod_multiples_basic(-1, SCALE as int);
}

/// The executable arcsine boundary search.
fn arcsin_search(mag: u64) -> (d: i64)
    ensures
        d as int == asin_search_v(mag as int, 0),
        0 <= d <= 89,
{
    asin_search_x(mag, 0)
}

/// The recursion behind the arcsine search.
fn asin_search_x(mag: u64, n: u64) -> (d: i64)
    requires
        n <= 89,
    ensures
        d as int == asin_search_v(mag as int, n as int),
        n <= d <= 89,
    decreases 89 - n,
{
    if n >= 89 {
        89
    } else if sin_ceil4(n + 1) <= mag {
        asin_search_x(mag, n + 1)
    } else {
        n as i64
    }
}

/// The executable arccosine band search.
fn arccos_search(mag: u64) -> (d: i64)
    ensures
        d as int == acos_search_v(mag as int, 0),
        0 <= d <= 89,
{
    acos_search_x(mag, 0)
}

/// The recursion behind the arccosine search.
fn acos_search_x(mag: u64, n: u64) -> (d: i64)
    requires
        n <= 89,
    ensures
        d as int == acos_search_v(mag as int, n as int),
        n <= d <= 89,
    decreases 89 - n,
{
    if n >= 89 {
        89
    } else if cos_floor4(n + 1) >= mag {
        acos_search_x(mag, n + 1)
    } else {
        n as i64
    }
}

/// The executable arctangent boundary search.
fn arctan_search(mag: u64) -> (d: i64)
    ensures
        d as int == atan_search_v(mag as int, 0),
        0 <= d <= 89,
{
    atan_search_x(mag, 0)
}

/// The recursion behind the arctangent search.
fn atan_search_x(mag: u64, n: u64) -> (d: i64)
    requires
        n <= 89,
    ensures
        d as int == atan_search_v(mag as int, n as int),
        n <= d <= 89,
    decreases 89 - n,
{
    if n >= 89 {
        89
    } else if tan_ceil4(n + 1) <= mag {
        atan_search_x(mag, n + 1)
    } else {
        n as i64
    }
}

/// Keeps an intermediate of the tangent computation inside its expected
/// range, written out.
pub open spec fn bnd(x: int, hi: int) -> int {
    if x < 0 {
        0
    } else if x > hi {
        hi
    } else {
        x
    }
}

/// Keeps an intermediate of the tangent computation inside its expected
/// range; the bounds are generous and the clamp is never hit in practice.
fn bounded(x: i128, hi: i128) -> (r: i128)
    requires
        hi >= 0,
    ensures
        r as int == bnd(x as int, hi as int),
        0 <= r <= hi,
{
    if x < 0 {
        0
    } else if x > hi {
        hi
    } else {
        x
    }
}

/// The whole part of the tangent of an angle strictly inside the first
/// quarter turn, written out: a whole-degree sine/cosine pair with a
/// polynomial correction for the fractional degrees, truncated and kept
/// in range.
pub open spec fn tan_mag_v(angle: int) -> int {
    let d = angle / 10000;
    let fu = angle % 10000;
    let fr = fu * 174532925;
    let fr2 = bnd((fr * fr) / 100000000000000, 40000000000);
    let fr3 = bnd((fr2 * fr) / 100000000000000, 800000000);
    let fr5 = bnd((fr3 * fr2) / 100000000000000, 400000);
    let fr4 = bnd((fr2 * fr2) / 100000000000000, 20000000);
    let sinf = bnd(fr - fr3 / 6 + fr5 / 120, 110000000000000);
    let cosf = bnd(100000000000000 - fr2 / 2 + fr4 / 24, 110000000000000);
    let s = sin_t14_s(d);
    let c = cos_t14_s(d);
    let sinq = s * cosf + c * sinf;
    let cosq = c * cosf - s * sinf;
    if cosq <= 0 {
        10000000
    } else {
        let q = sinq / cosq;
        if q < 0 {
            0
        } else if q > 10000000 {
            10000000
        } else {
            q
        }
    }
}

/// The whole part of the tangent of an angle strictly inside the first
/// quarter turn, from a whole-degree sine/cosine pair with a polynomial
/// correction for the fractional degrees.
fn tan_mag(angle: u64) -> (r: i64)
    requires
        1 <= angle < 900000,
    ensures
        r as int == tan_mag_v(angle as int),
        0 <= r <= 10000000,
{
    let d: u64 = angle / 10000;
    let fu: u64 = angle % 10000;
    let fr: i128 = (fu as i128) * 174532925;
    proof {
        assert(fr * fr <= 2000000000000 * 2000000000000) by (nonlinear_arith)
            requires
                0 <= fr <= 2000000000000,
        ;
    }
    let fr2: i128 = bounded((fr * fr) / 100000000000000, 40000000000);
    proof {
        assert(0 <= fr2 * fr <= 40000000000 * 2000000000000) by (nonlinear_arith)
            requires
                0 <= fr2 <= 40000000000,
                0 <= fr <= 2000000000000,
        ;
    }
    let fr3: i128 = bounded((fr2 * fr) / 100000000000000, 800000000);
    proof {
        assert(0 <= fr3 * fr2 <= 800000000 * 40000000000) by (nonlinear_arith)
            requires
                0 <= fr3 <= 800000000,
                0 <= fr2 <= 40000000000,
        ;
        assert(0 <= fr2 * fr2 <= 40000000000 * 40000000000) by (nonlinear_arith)
            requires
                0 <= fr2 <= 40000000000,
        ;
    }
    let fr5: i128 = bounded((fr3 * fr2) / 100000000000000, 400000);
    let fr4: i128 = bounded((fr2 * fr2) / 100000000000000, 20000000);
    let sinf: i128 = bounded(fr - fr3 / 6 + fr5 / 120, 110000000000000);
    let cosf: i128 = bounded(100000000000000 - fr2 / 2 + fr4 / 24, 110000000000000);
    let s: i128 = sin_t14(d);
    let c: i128 = cos_t14(d);
    proof {
        let big: int = 110000000000000;
        assert((0 <= s * cosf <= big * big) && (0 <= c * sinf < big * big) && (0 <= c * cosf <= big
            * big) && (0 <= s * sinf < big * big)) by (nonlinear_arith)
            requires
                big == 110000000000000,
                0 <= s <= 100000000000000,
                0 <= c <= 100000000000000,
                0 <= cosf <= big,
                0 <= sinf <= big,
        ;
    }
    let sinq: i128 = s * cosf + c * sinf;
    let cosq: i128 = c * cosf - s * sinf;
    if cosq <= 0 {
        return 10000000;
    }
    let q: i128 = sinq / cosq;
    if q < 0 {
        0
    } else if q > 10000000 {
        10000000
    } else {
        q as i64
    }
}

} // verus!
