//! Point deduplication and color preparation.
//!
//! The metric assumes deduplicated clouds: no two points share identical
//! coordinates. Preprocessing therefore groups the input rows by equal
//! coordinates, keeps one row per distinct point in coordinate order,
//! averages each group's colors with round-half-up rounding, and converts
//! the averaged color into the luma/chroma space the feature extractor
//! consumes.
//!
//! Coordinates enter the verified library as `PointKey` values: one 64-bit
//! encoding per axis, chosen by the caller so that encodings are equal
//! exactly when the coordinates are, and so that unsigned order on each
//! encoding is the coordinate order. Grouping and ordering only ever
//! compare encodings, so the result is the caller's coordinate grouping.

use vstd::prelude::*;

verus! {

/// One point's coordinates, each axis in an order-preserving 64-bit
/// encoding supplied by the caller.
#[derive(Clone, Copy, Debug, PartialEq, Eq, Structural)]
pub struct PointKey {
    pub x: u64,
    pub y: u64,
    pub z: u64,
}

/// Lexicographic coordinate order, axis by axis.
pub open spec fn key_lt(a: PointKey, b: PointKey) -> bool {
    a.x < b.x || (a.x == b.x && (a.y < b.y || (a.y == b.y && a.z < b.z)))
}

/// The coordinate order is total: two keys are ordered one way, the other
/// way, or equal.
pub proof fn lemma_key_order_total(a: PointKey, b: PointKey)
    ensures
        key_lt(a, b) ==> !key_lt(b, a) && a != b,
        !key_lt(a, b) && !key_lt(b, a) ==> a == b,
{
}

/// Executable lexicographic comparison.
pub fn key_less(a: &PointKey, b: &PointKey) -> (r: bool)
    ensures
        r == key_lt(*a, *b),
{
    if a.x < b.x {
        true
    } else if a.x == b.x {
        if a.y < b.y {
            true
        } else if a.y == b.y {
            a.z < b.z
        } else {
            false
        }
    } else {
        false
    }
}

/// `round(n / 10000)` with halves rounded up, for a nonnegative scaled
/// channel value `n`.
pub open spec fn round_scaled(n: int) -> int {
    (n + 5000) / 10000
}

/// A channel value forced into the representable range.
pub open spec fn clamp_channel(v: int) -> int {
    if v < 0 {
        0
    } else if v > 255 {
        255
    } else {
        v
    }
}

/// The luma channel of the color transform, scaled by ten thousand.
pub open spec fn luma_scaled(r: int, g: int, b: int) -> int {
    2126 * r + 2126 * g + 722 * b
}

/// The first chroma channel, scaled by ten thousand and offset so it is
/// nonnegative for every byte input.
pub open spec fn chroma_u_scaled(r: int, g: int, b: int) -> int {
    5000 * b + 1280000 - 1146 * r - 3854 * g
}

/// The second chroma channel, scaled and offset likewise.
pub open spec fn chroma_v_scaled(r: int, g: int, b: int) -> int {
    5000 * r + 1280000 - 4542 * g - 468 * b
}

/// Output channel `c` of the color transform on byte channels `r`, `g`,
/// `b`: the scaled channel, rounded and clamped.
pub open spec fn yuv_channel(c: int, r: int, g: int, b: int) -> int {
    clamp_channel(
        round_scaled(
            if c == 0 {
                luma_scaled(r, g, b)
            } else if c == 1 {
                chroma_u_scaled(r, g, b)
            } else {
                chroma_v_scaled(r, g, b)
            },
        ),
    )
}

/// Converts one color into the luma/chroma space the feature extractor
/// consumes: each output channel is a fixed affine combination of the
/// input channels, rounded half up and clamped to a byte.
pub fn rgb_to_yuv(rgb: [u8; 3]) -> (yuv: [u8; 3])
    ensures
        yuv@[0] as int == yuv_channel(0, rgb@[0] as int, rgb@[1] as int, rgb@[2] as int),
        yuv@[1] as int == yuv_channel(1, rgb@[0] as int, rgb@[1] as int, rgb@[2] as int),
        yuv@[2] as int == yuv_channel(2, rgb@[0] as int, rgb@[1] as int, rgb@[2] as int),
{
    let r = rgb[0] as u32;
    let g = rgb[1] as u32;
    let b = rgb[2] as u32;
    let y_num = 2126 * r + 2126 * g + 722 * b;
    let u_num = 5000 * b + 1280000 - 1146 * r - 3854 * g;
    let v_num = 5000 * r + 1280000 - 4542 * g - 468 * b;
    let y = (y_num + 5000) / 10000;
    let u = (u_num + 5000) / 10000;
    let v = (v_num + 5000) / 10000;
    let y_out: u8 = if y > 255 {
        255
    } else {
        y as u8
    };
    let u_out: u8 = if u > 255 {
        255
    } else {
        u as u8
    };
    let v_out: u8 = if v > 255 {
        255
    } else {
        v as u8
    };
    [y_out, u_out, v_out]
}

/// The sum of channel `c` over a sequence of colors.
pub open spec fn sum_channel(colors: Seq<[u8; 3]>, c: int) -> int
    decreases colors.len(),
{
    if colors.len() == 0 {
        0
    } else {
        sum_channel(colors.drop_last(), c) + colors.last()@[c]
    }
}

/// `round(sum / n)` with halves rounded up, for a nonnegative sum and a
/// positive count.
pub open spec fn rounded_mean(sum: int, n: int) -> int {
    (2 * sum + n) / (2 * n)
}

/// The mean color of a nonempty group, each channel rounded half up.
pub fn mean_colors(colors: Vec<[u8; 3]>) -> (mean: [u8; 3])
    requires
        colors@.len() >= 1,
    ensures
        mean@[0] as int == rounded_mean(sum_channel(colors@, 0), colors@.len() as int),
        mean@[1] as int == rounded_mean(sum_channel(colors@, 1), colors@.len() as int),
        mean@[2] as int == rounded_mean(sum_channel(colors@, 2), colors@.len() as int),
{
    let n = colors.len();
    let mut s0: u128 = 0;
    let mut s1: u128 = 0;
    let mut s2: u128 = 0;
    let mut i: usize = 0;
    while i < n
        invariant
            i <= n,
            n == colors@.len(),
            s0 == sum_channel(colors@.take(i as int), 0),
            s1 == sum_channel(colors@.take(i as int), 1),
            s2 == sum_channel(colors@.take(i as int), 2),
            s0 <= 255 * i,
            s1 <= 255 * i,
            s2 <= 255 * i,
        decreases n - i,
    {
        let color = colors[i];
        proof {
            assert(colors@.take(i as int + 1).drop_last() =~= colors@.take(i as int));
            assert(colors@.take(i as int + 1).last() == colors@[i as int]);
        }
        s0 = s0 + color[0] as u128;
        s1 = s1 + color[1] as u128;
        s2 = s2 + color[2] as u128;
        i = i + 1;
    }
    proof {
        assert(colors@.take(n as int) =~= colors@);
    }
    let count = n as u128;
    let m0 = (2 * s0 + count) / (2 * count);
    let m1 = (2 * s1 + count) / (2 * count);
    let m2 = (2 * s2 + count) / (2 * count);
    proof {
        lemma_rounded_mean_fits(s0 as int, count as int);
        lemma_rounded_mean_fits(s1 as int, count as int);
        lemma_rounded_mean_fits(s2 as int, count as int);
    }
    [m0 as u8, m1 as u8, m2 as u8]
}

/// The colors of the rows whose point equals `p`, in input order.
pub open spec fn group_colors(points: Seq<PointKey>, colors: Seq<[u8; 3]>, p: PointKey) -> Seq<
    [u8; 3],
>
    decreases points.len(),
{
    if points.len() == 0 {
        Seq::empty()
    } else {
        let rest = group_colors(points.drop_last(), colors.drop_last(), p);
        if points.last() == p {
            rest.push(colors.last())
        } else {
            rest
        }
    }
}

/// Channel `c` of the color a dedup group contributes: the group's rounded
/// mean color sent through the color transform.
pub open spec fn group_color_channel(g: Seq<[u8; 3]>, c: int) -> int {
    yuv_channel(
        c,
        rounded_mean(sum_channel(g, 0), g.len() as int),
        rounded_mean(sum_channel(g, 1), g.len() as int),
        rounded_mean(sum_channel(g, 2), g.len() as int),
    )
}

/// Keys in strictly increasing coordinate order: sorted and duplicate-free.
pub open spec fn strictly_sorted(keys: Seq<PointKey>) -> bool {
    forall|i: int, j: int| 0 <= i < j < keys.len() ==> key_lt(keys[i], keys[j])
}

/// Two sequences holding the same set of points.
pub open spec fn same_point_set(a: Seq<PointKey>, b: Seq<PointKey>) -> bool {
    forall|p: PointKey| a.contains(p) <==> b.contains(p)
}

/// Everything preprocessing promises: one output row per distinct input
/// point, rows in strictly increasing coordinate order, and each row's
/// color computed from its group's colors by the rounded mean and the
/// color transform.
pub open spec fn preprocess_post(
    points: Seq<PointKey>,
    colors: Seq<[u8; 3]>,
    out_points: Seq<PointKey>,
    out_colors: Seq<[u8; 3]>,
) -> bool {
    &&& out_colors.len() == out_points.len()
    &&& strictly_sorted(out_points)
    &&& same_point_set(out_points, points)
    &&& forall|i: int|
        0 <= i < out_points.len() ==> {
            let g = group_colors(points, colors, out_points[i]);
            &&& (#[trigger] out_colors[i])@[0] as int == group_color_channel(g, 0)
            &&& out_colors[i]@[1] as int == group_color_channel(g, 1)
            &&& out_colors[i]@[2] as int == group_color_channel(g, 2)
        }
}

/// The coordinate order is transitive.
pub proof fn lemma_key_lt_transitive(a: PointKey, b: PointKey, c: PointKey)
    requires
        key_lt(a, b),
        key_lt(b, c),
    ensures
        key_lt(a, c),
{
}

/// What a pushed sequence contains: the old elements and the new one.
proof fn lemma_contains_push(s: Seq<PointKey>, v: PointKey)
    ensures
        forall|q: PointKey| s.push(v).contains(q) <==> s.contains(q) || q == v,
{
    assert forall|q: PointKey| s.push(v).contains(q) implies s.contains(q) || q == v by {
        let idx = choose|idx: int| 0 <= idx < s.push(v).len() && s.push(v)[idx] == q;
        if idx < s.len() {
            assert(s[idx] == q);
        }
    }
    assert forall|q: PointKey| s.contains(q) || q == v implies s.push(v).contains(q) by {
        if s.contains(q) {
            let idx = choose|idx: int| 0 <= idx < s.len() && s[idx] == q;
            assert(s.push(v)[idx] == q);
        } else {
            assert(s.push(v)[s.len() as int] == q);
        }
    }
}

/// What a sequence with one insertion contains: the old elements and the
/// inserted one.
proof fn lemma_contains_insert(s: Seq<PointKey>, at: int, v: PointKey)
    requires
        0 <= at <= s.len(),
    ensures
        forall|q: PointKey| s.insert(at, v).contains(q) <==> s.contains(q) || q == v,
{
    s.insert_ensures(at, v);
    let t = s.insert(at, v);
    assert forall|q: PointKey| t.contains(q) implies s.contains(q) || q == v by {
        let idx = choose|idx: int| 0 <= idx < t.len() && t[idx] == q;
        if idx < at {
            assert(s[idx] == q);
        } else if idx > at {
            assert(t[(idx - 1) + 1] == s[idx - 1]);
            assert(s[idx - 1] == q);
        }
    }
    assert forall|q: PointKey| s.contains(q) || q == v implies t.contains(q) by {
        if s.contains(q) {
            let idx = choose|idx: int| 0 <= idx < s.len() && s[idx] == q;
            if idx < at {
                assert(t[idx] == q);
            } else {
                assert(t[idx + 1] == q);
            }
        } else {
            assert(t[at] == q);
        }
    }
}

/// A point that never occurs contributes an empty color group.
proof fn lemma_group_colors_absent(points: Seq<PointKey>, colors: Seq<[u8; 3]>, p: PointKey)
    requires
        !points.contains(p),
    ensures
        group_colors(points, colors, p) == Seq::<[u8; 3]>::empty(),
    decreases points.len(),
{
    if points.len() > 0 {
        assert(points[points.len() - 1] == points.last());
        assert(points.last() != p);
        assert forall|idx: int| 0 <= idx < points.drop_last().len() implies points.drop_last()[idx]
            != p by {
            assert(points[idx] == points.drop_last()[idx]);
        }
        lemma_group_colors_absent(points.drop_last(), colors.drop_last(), p);
    }
}

/// Appending one row extends exactly its own point's group.
proof fn lemma_group_colors_extend(
    points: Seq<PointKey>,
    colors: Seq<[u8; 3]>,
    p: PointKey,
    c: [u8; 3],
    q: PointKey,
)
    ensures
        group_colors(points.push(p), colors.push(c), q) == if q == p {
            group_colors(points, colors, q).push(c)
        } else {
            group_colors(points, colors, q)
        },
{
    assert(points.push(p).drop_last() =~= points);
    assert(colors.push(c).drop_last() =~= colors);
    assert(points.push(p).last() == p);
    assert(colors.push(c).last() == c);
}

/// Groups the input rows by equal coordinates: one output row per distinct
/// point, rows in strictly increasing coordinate order, each carrying its
/// group's rounded mean color sent through the color transform.
pub fn preprocess_point_cloud(points: Vec<PointKey>, colors: Vec<[u8; 3]>) -> (out: (
    Vec<PointKey>,
    Vec<[u8; 3]>,
))
    requires
        points@.len() == colors@.len(),
    ensures
        preprocess_post(points@, colors@, out.0@, out.1@),
{
    let mut keys: Vec<PointKey> = Vec::new();
    let mut groups: Vec<Vec<[u8; 3]>> = Vec::new();
    let mut i: usize = 0;
    while i < points.len()
        invariant
            points@.len() == colors@.len(),
            i <= points@.len(),
            keys@.len() == groups@.len(),
            strictly_sorted(keys@),
            same_point_set(keys@, points@.take(i as int)),
            forall|j: int|
                0 <= j < keys@.len() ==> (#[trigger] groups@[j])@ == group_colors(
                    points@.take(i as int),
                    colors@.take(i as int),
                    keys@[j],
                ),
            forall|j: int| 0 <= j < groups@.len() ==> (#[trigger] groups@[j])@.len() >= 1,
        decreases points@.len() - i,
    {
        let p = points[i];
        let color = colors[i];
        let ghost pts_pre = points@.take(i as int);
        let ghost cls_pre = colors@.take(i as int);
        let ghost pts_post = points@.take(i as int + 1);
        let ghost cls_post = colors@.take(i as int + 1);
        let ghost keys_old = keys@;
        let ghost groups_old = groups@;
        proof {
            assert(pts_post =~= pts_pre.push(p));
            assert(cls_post =~= cls_pre.push(color));
            lemma_contains_push(pts_pre, p);
        }
        let mut j: usize = 0;
        while j < keys.len() && key_less(&keys[j], &p)
            invariant
                j <= keys@.len(),
                forall|k: int| 0 <= k < j ==> key_lt(#[trigger] keys@[k], p),
            decreases keys@.len() - j,
        {
            j = j + 1;
        }
        if j < keys.len() && keys[j] == p {
            let mut g = groups.remove(j);
            g.push(color);
            groups.insert(j, g);
            proof {
                groups_old.remove_ensures(j as int);
                groups_old.remove(j as int).insert_ensures(j as int, g);
                assert(groups@.len() == groups_old.len());
                assert forall|k: int| 0 <= k < groups@.len() && k != j implies groups@[k]
                    == groups_old[k] by {
                    if k < j {
                        assert(groups@[k] == groups_old.remove(j as int)[k]);
                    } else {
                        assert(groups@[(k - 1) + 1] == groups_old.remove(j as int)[k - 1]);
                        assert(groups_old.remove(j as int)[(k - 1)] == groups_old[(k - 1) + 1]);
                    }
                }
                assert(groups@[j as int] == g);
                assert(g@ == groups_old[j as int]@.push(color));
                assert forall|k: int| 0 <= k < keys@.len() implies (#[trigger] groups@[k])@
                    == group_colors(pts_post, cls_post, keys@[k]) by {
                    lemma_group_colors_extend(pts_pre, cls_pre, p, color, keys@[k]);
                    if k != j {
                        assert(keys@[k] != p) by {
                            if k < j {
                                assert(key_lt(keys@[k], keys@[j as int]));
                            } else {
                                assert(key_lt(keys@[j as int], keys@[k]));
                            }
                        }
                    }
                }
                assert(same_point_set(keys@, pts_post)) by {
                    assert(keys@.contains(p)) by {
                        assert(keys@[j as int] == p);
                    }
                }
            }
        } else {
            proof {
                // The point is new: every existing key differs from it.
                assert forall|k: int| 0 <= k < keys@.len() implies keys@[k] != p by {
                    if k < j {
                        assert(key_lt(keys@[k], p));
                    } else if k == j {
                        assert(!key_lt(keys@[k], p));
                        lemma_key_order_total(keys@[k], p);
                    } else {
                        assert(!key_lt(keys@[j as int], p));
                        lemma_key_order_total(keys@[j as int], p);
                        assert(key_lt(keys@[j as int], keys@[k]));
                        if keys@[k] == p {
                            lemma_key_order_total(p, keys@[j as int]);
                        }
                    }
                }
                assert(!pts_pre.contains(p));
                lemma_group_colors_absent(pts_pre, cls_pre, p);
            }
            keys.insert(j, p);
            let mut g: Vec<[u8; 3]> = Vec::new();
            g.push(color);
            groups.insert(j, g);
            proof {
                keys_old.insert_ensures(j as int, p);
                groups_old.insert_ensures(j as int, g);
                lemma_contains_insert(keys_old, j as int, p);
                assert(strictly_sorted(keys@)) by {
                    assert forall|a: int, b: int| 0 <= a < b < keys@.len() implies key_lt(
                        keys@[a],
                        keys@[b],
                    ) by {
                        if b < j {
                            assert(keys@[a] == keys_old[a] && keys@[b] == keys_old[b]);
                        } else if b == j {
                            assert(keys@[a] == keys_old[a]);
                            assert(key_lt(keys_old[a], p));
                        } else {
                            assert(keys@[(b - 1) + 1] == keys_old[b - 1]);
                            if a < j {
                                assert(keys@[a] == keys_old[a]);
                                if a < b - 1 {
                                    assert(key_lt(keys_old[a], keys_old[b - 1]));
                                }
                            } else if a == j {
                                assert(j < keys_old.len());
                                assert(!key_lt(keys_old[j as int], p));
                                assert(keys_old[j as int] != p);
                                lemma_key_order_total(keys_old[j as int], p);
                                assert(key_lt(p, keys_old[j as int]));
                                if b - 1 > j {
                                    assert(key_lt(keys_old[j as int], keys_old[b - 1]));
                                    lemma_key_lt_transitive(p, keys_old[j as int], keys_old[b - 1]);
                                }
                            } else {
                                assert(keys@[(a - 1) + 1] == keys_old[a - 1]);
                                assert(key_lt(keys_old[a - 1], keys_old[b - 1]));
                            }
                        }
                    }
                }
                assert forall|k: int| 0 <= k < keys@.len() implies (#[trigger] groups@[k])@
                    == group_colors(pts_post, cls_post, keys@[k]) by {
                    lemma_group_colors_extend(pts_pre, cls_pre, p, color, keys@[k]);
                    if k < j {
                        assert(groups@[k] == groups_old[k] && keys@[k] == keys_old[k]);
                        assert(keys_old[k] != p);
                    } else if k == j {
                        assert(groups@[k] == g && keys@[k] == p);
                        assert(group_colors(pts_pre, cls_pre, p) == Seq::<[u8; 3]>::empty());
                        assert(g@ =~= Seq::<[u8; 3]>::empty().push(color));
                    } else {
                        assert(groups@[(k - 1) + 1] == groups_old[k - 1]);
                        assert(keys@[(k - 1) + 1] == keys_old[k - 1]);
                        assert(keys_old[k - 1] != p);
                    }
                }
                assert forall|q: PointKey| keys@.contains(q) <==> pts_post.contains(q) by {
                    assert(keys@.contains(q) <==> (keys_old.contains(q) || q == p));
                    assert(pts_post.contains(q) <==> (pts_pre.contains(q) || q == p));
                    assert(keys_old.contains(q) <==> pts_pre.contains(q));
                }
            }
        }
        i = i + 1;
    }
    proof {
        assert(points@.take(points@.len() as int) =~= points@);
        assert(colors@.take(colors@.len() as int) =~= colors@);
    }
    let ghost final_keys = keys@;
    let ghost all_groups = groups@;
    let n_unique = keys.len();
    let mut out_colors: Vec<[u8; 3]> = Vec::new();
    let mut j: usize = 0;
    while j < n_unique
        invariant
            n_unique == final_keys.len(),
            keys@ == final_keys,
            all_groups.len() == final_keys.len(),
            j <= n_unique,
            groups@ == all_groups.skip(j as int),
            out_colors@.len() == j,
            forall|k: int|
                0 <= k < all_groups.len() ==> (#[trigger] all_groups[k])@ == group_colors(
                    points@,
                    colors@,
                    final_keys[k],
                ),
            forall|k: int|
                0 <= k < all_groups.len() ==> (#[trigger] all_groups[k])@.len() >= 1,
            forall|k: int|
                0 <= k < j ==> {
                    let g = group_colors(points@, colors@, final_keys[k]);
                    &&& (#[trigger] out_colors@[k])@[0] as int == group_color_channel(g, 0)
                    &&& out_colors@[k]@[1] as int == group_color_channel(g, 1)
                    &&& out_colors@[k]@[2] as int == group_color_channel(g, 2)
                },
        decreases n_unique - j,
    {
        proof {
            assert(groups@[0] == all_groups.skip(j as int)[0]);
            assert(all_groups.skip(j as int)[0] == all_groups[j as int]);
        }
        let g = groups.remove(0);
        proof {
            assert(groups@ =~= all_groups.skip(j as int + 1)) by {
                assert(groups@ == all_groups.skip(j as int).remove(0));
                all_groups.skip(j as int).remove_ensures(0);
            }
        }
        let m = mean_colors(g);
        let yuv = rgb_to_yuv(m);
        out_colors.push(yuv);
        j = j + 1;
    }
    (keys, out_colors)
}

/// A strictly sorted sequence is pinned by the set of its elements.
pub proof fn lemma_sorted_set_unique(a: Seq<PointKey>, b: Seq<PointKey>)
    requires
        strictly_sorted(a),
        strictly_sorted(b),
        same_point_set(a, b),
    ensures
        a == b,
    decreases a.len(),
{
    if a.len() == 0 {
        if b.len() > 0 {
            assert(b.contains(b[0]));
            assert(a.contains(b[0]));
        }
        assert(a =~= b);
    } else {
        assert(a.contains(a[0]));
        assert(b.contains(a[0]));
        assert(b.len() > 0);
        assert(b.contains(b[0]));
        assert(a.contains(b[0]));
        if a[0] != b[0] {
            let m = choose|m: int| 0 <= m < b.len() && b[m] == a[0];
            let k = choose|k: int| 0 <= k < a.len() && a[k] == b[0];
            assert(m != 0 && k != 0);
            assert(key_lt(b[0], b[m]));
            assert(key_lt(a[0], a[k]));
            lemma_key_order_total(a[0], b[0]);
        }
        let at = a.skip(1);
        let bt = b.skip(1);
        assert forall|i: int, j: int| 0 <= i < j < at.len() implies key_lt(at[i], at[j]) by {
            assert(at[i] == a[i + 1] && at[j] == a[j + 1]);
        }
        assert forall|i: int, j: int| 0 <= i < j < bt.len() implies key_lt(bt[i], bt[j]) by {
            assert(bt[i] == b[i + 1] && bt[j] == b[j + 1]);
        }
        assert forall|q: PointKey| at.contains(q) implies bt.contains(q) by {
            let idx = choose|idx: int| 0 <= idx < at.len() && at[idx] == q;
            assert(a[idx + 1] == q);
            assert(key_lt(a[0], q));
            assert(a.contains(q));
            assert(b.contains(q));
            let bm = choose|bm: int| 0 <= bm < b.len() && b[bm] == q;
            assert(bm != 0);
            assert(bt[bm - 1] == q);
        }
        assert forall|q: PointKey| bt.contains(q) implies at.contains(q) by {
            let idx = choose|idx: int| 0 <= idx < bt.len() && bt[idx] == q;
            assert(b[idx + 1] == q);
            assert(key_lt(b[0], q));
            assert(b.contains(q));
            assert(a.contains(q));
            let am = choose|am: int| 0 <= am < a.len() && a[am] == q;
            assert(am != 0);
            assert(at[am - 1] == q);
        }
        lemma_sorted_set_unique(at, bt);
        assert forall|i: int| 0 <= i < a.len() implies a[i] == b[i] by {
            if i > 0 {
                assert(at[i - 1] == a[i] && bt[i - 1] == b[i]);
                assert(at[i - 1] == bt[i - 1]);
            }
        }
        assert(a =~= b);
    }
}

/// PREPROCESSING IS DETERMINISTIC: its contract pins the output, so any two
/// results it allows on one input are equal, key for key and color byte for
/// color byte.
pub proof fn lemma_preprocess_deterministic(
    points: Seq<PointKey>,
    colors: Seq<[u8; 3]>,
    keys1: Seq<PointKey>,
    colors1: Seq<[u8; 3]>,
    keys2: Seq<PointKey>,
    colors2: Seq<[u8; 3]>,
)
    requires
        preprocess_post(points, colors, keys1, colors1),
        preprocess_post(points, colors, keys2, colors2),
    ensures
        keys1 == keys2,
        colors1 == colors2,
{
    assert forall|p: PointKey| keys1.contains(p) <==> keys2.contains(p) by {
        assert(keys1.contains(p) <==> points.contains(p));
        assert(keys2.contains(p) <==> points.contains(p));
    }
    lemma_sorted_set_unique(keys1, keys2);
    assert forall|i: int| 0 <= i < colors1.len() implies colors1[i] == colors2[i] by {
        assert(keys1[i] == keys2[i]);
        let g = group_colors(points, colors, keys1[i]);
        assert(colors1[i]@[0] as int == group_color_channel(g, 0));
        assert(colors2[i]@[0] as int == group_color_channel(g, 0));
        assert(colors1[i]@[1] as int == group_color_channel(g, 1));
        assert(colors2[i]@[1] as int == group_color_channel(g, 1));
        assert(colors1[i]@[2] as int == group_color_channel(g, 2));
        assert(colors2[i]@[2] as int == group_color_channel(g, 2));
        assert(colors1[i] =~= colors2[i]);
    }
    assert(colors1 =~= colors2);
}

/// A rounded mean of byte values is a byte value.
proof fn lemma_rounded_mean_fits(sum: int, n: int)
    requires
        n >= 1,
        0 <= sum <= 255 * n,
    ensures
        0 <= rounded_mean(sum, n) <= 255,
{
    assert(2 * sum + n <= 511 * n);
    assert((2 * sum + n) / (2 * n) <= 255) by (nonlinear_arith)
        requires
            n >= 1,
            2 * sum + n <= 511 * n,
            sum >= 0,
    ;
    assert((2 * sum + n) / (2 * n) >= 0) by (nonlinear_arith)
        requires
            n >= 1,
            sum >= 0,
    ;
}

} // verus!
