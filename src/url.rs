//! Endpoint and query-string helpers.
use vstd::prelude::*;
use vstd::utf8::encode_utf8;

verus! {

/// Bytes that form encoding passes through unchanged: `*`, `-`, `.`, `_`, digits and letters.
pub open spec fn is_unreserved(b: u8) -> bool {
    b == 0x2a || b == 0x2d || b == 0x2e || b == 0x5f || (0x30 <= b && b <= 0x39) || (0x41 <= b
        && b <= 0x5a) || (0x61 <= b && b <= 0x7a)
}

/// Upper-case hexadecimal digit for a value below 16.
pub open spec fn hex_digit_upper(d: u8) -> char {
    seq!['0', '1', '2', '3', '4', '5', '6', '7', '8', '9', 'A', 'B', 'C', 'D', 'E', 'F'][d as int]
}

/// Form encoding of a single byte.
pub open spec fn form_encode_byte(b: u8) -> Seq<char> {
    if is_unreserved(b) {
        seq![b as char]
    } else if b == 0x20 {
        seq!['+']
    } else {
        seq!['%', hex_digit_upper(b / 16), hex_digit_upper(b % 16)]
    }
}

/// Form encoding of a byte sequence, byte by byte.
pub open spec fn form_encode_bytes(bs: Seq<u8>) -> Seq<char>
    decreases bs.len(),
{
    if bs.len() == 0 {
        Seq::empty()
    } else {
        form_encode_bytes(bs.drop_last()) + form_encode_byte(bs.last())
    }
}

/// Form encoding (`application/x-www-form-urlencoded`) of the UTF-8 bytes of a text.
pub open spec fn form_encoded(s: Seq<char>) -> Seq<char> {
    form_encode_bytes(encode_utf8(s))
}

/// `key=value`, both sides form encoded.
pub open spec fn pair_text(key: Seq<char>, val: Seq<char>) -> Seq<char> {
    form_encoded(key) + seq!['='] + form_encoded(val)
}

/// One item of a query: a bare key when the value is empty, else a pair.
pub open spec fn item_text(key: Seq<char>, val: Seq<char>) -> Seq<char> {
    if val.len() == 0 {
        form_encoded(key)
    } else {
        pair_text(key, val)
    }
}

/// Appends an item to a query, with a `&` in between unless the query is still empty.
pub open spec fn append_item(query: Seq<char>, item: Seq<char>) -> Seq<char> {
    if query.len() > 0 {
        query + seq!['&'] + item
    } else {
        item
    }
}

/// The query made of the given items, in order.
pub open spec fn query_of(items: Seq<Seq<char>>) -> Seq<char>
    decreases items.len(),
{
    if items.len() == 0 {
        Seq::empty()
    } else {
        append_item(query_of(items.drop_last()), items.last())
    }
}

/// The items of a list of key/value pairs.
pub open spec fn pair_items(pairs: Seq<(&str, &str)>) -> Seq<Seq<char>> {
    pairs.map_values(|p: (&str, &str)| item_text(p.0@, p.1@))
}

/// The items of a list of keys, each with several values: one pair per value.
pub open spec fn vec_pair_items(pairs: Seq<(&str, Vec<&str>)>) -> Seq<Seq<char>>
    decreases pairs.len(),
{
    if pairs.len() == 0 {
        Seq::empty()
    } else {
        let (key, vals) = pairs.last();
        vec_pair_items(pairs.drop_last()) + vals@.map_values(|v: &str| pair_text(key@, v@))
    }
}

/// Relies on `form_urlencoded::byte_serialize` (re-exported by the `url` crate): each byte of
/// the text's UTF-8 form is kept when it is unreserved, a space becomes `+`, and any other
/// byte becomes `%` followed by two upper-case hexadecimal digits.
#[verifier::external_body]
fn form_encode(s: &str) -> (r: String)
    ensures
        r@ == form_encoded(s@),
{
    ::url::form_urlencoded::byte_serialize(s.as_bytes()).collect()
}

/// Appends `item` to `query` as [`append_item`] describes.
fn push_item(query: &mut String, item: &str)
    ensures
        final(query)@ == append_item(old(query)@, item@),
{
    if !query.as_str().is_empty() {
        query.append("&");
        proof {
            reveal_strlit("&");
        }
    }
    query.append(item);
}

/// Creates an endpoint with a query.
pub fn construct_ep(ep: &str, query: Option<&str>) -> (r: String)
    ensures
        r@ == match query {
            Some(q) => ep@ + seq!['?'] + q@,
            None => ep@,
        },
{
    let mut ep = String::from_str(ep);
    if let Some(q) = query {
        append_query(&mut ep, q);
    }
    ep
}

/// Appends a query to an endpoint.
pub fn append_query(ep: &mut String, query: &str)
    ensures
        final(ep)@ == old(ep)@ + seq!['?'] + query@,
{
    ep.append("?");
    proof {
        reveal_strlit("?");
    }
    ep.append(query);
}

/// Encodes `key` and `val` as a form-encoded pair.
pub fn encoded_pair(key: &str, val: &str) -> (r: String)
    ensures
        r@ == pair_text(key@, val@),
{
    let mut r = form_encode(key);
    r.append("=");
    proof {
        reveal_strlit("=");
    }
    let v = form_encode(val);
    r.append(v.as_str());
    r
}

/// Encodes several values for each key: one pair per value, keys in order.
pub fn encoded_vec_pairs(pairs: &[(&str, Vec<&str>)]) -> (r: String)
    ensures
        r@ == query_of(vec_pair_items(pairs@)),
{
    let mut r = String::new();
    let ghost mut items: Seq<Seq<char>> = Seq::empty();
    let mut i: usize = 0;
    while i < pairs.len()
        invariant
            i <= pairs@.len(),
            items == vec_pair_items(pairs@.subrange(0, i as int)),
            r@ == query_of(items),
        decreases pairs@.len() - i,
    {
        let key = pairs[i].0;
        let vals = &pairs[i].1;
        let ghost before = items;
        let mut j: usize = 0;
        while j < vals.len()
            invariant
                i < pairs@.len(),
                key == pairs@[i as int].0,
                vals == pairs@[i as int].1,
                j <= vals@.len(),
                items == before + vals@.subrange(0, j as int).map_values(
                    |v: &str| pair_text(key@, v@),
                ),
                r@ == query_of(items),
            decreases vals@.len() - j,
        {
            let pair = encoded_pair(key, vals[j]);
            proof {
                let next = items.push(pair@);
                assert(next.drop_last() == items);
            }
            push_item(&mut r, pair.as_str());
            proof {
                items = items.push(pair@);
                assert(vals@.subrange(0, j + 1 as int).map_values(|v: &str| pair_text(key@, v@))
                    =~= vals@.subrange(0, j as int).map_values(|v: &str| pair_text(key@, v@)).push(
                    pair_text(key@, vals@[j as int]@),
                ));
            }
            j += 1;
        }
        proof {
            let pre = pairs@.subrange(0, i + 1 as int);
            assert(pre.drop_last() =~= pairs@.subrange(0, i as int));
            assert(vals@.subrange(0, vals@.len() as int) =~= vals@);
        }
        i += 1;
    }
    proof {
        assert(pairs@.subrange(0, pairs@.len() as int) =~= pairs@);
    }
    r
}

/// Encodes key/value pairs; a pair with an empty value is written as its bare key.
pub fn encoded_pairs(pairs: &[(&str, &str)]) -> (r: String)
    ensures
        r@ == query_of(pair_items(pairs@)),
{
    let mut r = String::new();
    let mut i: usize = 0;
    while i < pairs.len()
        invariant
            i <= pairs@.len(),
            r@ == query_of(pair_items(pairs@.subrange(0, i as int))),
        decreases pairs@.len() - i,
    {
        let (k, v) = pairs[i];
        let item = if v.is_empty() {
            form_encode(k)
        } else {
            encoded_pair(k, v)
        };
        push_item(&mut r, item.as_str());
        proof {
            let pre = pair_items(pairs@.subrange(0, i + 1 as int));
            assert(pre =~= pair_items(pairs@.subrange(0, i as int)).push(item@));
            assert(pre.drop_last() =~= pair_items(pairs@.subrange(0, i as int)));
        }
        i += 1;
    }
    proof {
        assert(pairs@.subrange(0, pairs@.len() as int) =~= pairs@);
    }
    r
}

} // verus!
