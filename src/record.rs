//! The game record and its JSON text.
use vstd::prelude::*;
use vstd::string::*;

verus! {

/// One game entry. `id` is absent until the store has assigned one.
#[derive(Clone, Debug)]
pub struct Videogame {
    pub id: Option<i32>,
    pub name: String,
    pub description: String,
    pub rating: i32,
    pub content_rating: String,
    pub developer: String,
    pub publisher: String,
    pub platform: String,
    pub genre: String,
    pub release_date: String,
}

/// The JSON string literal (quoted and escaped) that serde_json writes for a text.
pub uninterp spec fn json_text_of(s: Seq<char>) -> Seq<char>;

/// Relies on `serde_json::to_string` on a `str`: the quoted, escaped JSON string.
/// Serialising a `str` into memory cannot fail, so the fallback is never taken.
#[verifier::external_body]
fn json_text(s: &str) -> (r: String)
    ensures
        r@ == json_text_of(s@),
{
    serde_json::to_string(s).unwrap_or_default()
}

pub open spec fn digit_char(d: nat) -> char {
    ((48 + d) as u8) as char
}

/// The decimal digits of `n`, most significant first, without leading zeros.
pub open spec fn decimal_digits(n: nat) -> Seq<char>
    decreases n,
{
    if n < 10 {
        seq![digit_char(n)]
    } else {
        decimal_digits(n / 10) + seq![digit_char(n % 10)]
    }
}

/// An integer in decimal, with a leading `-` when negative.
pub open spec fn decimal_text(v: int) -> Seq<char> {
    if v < 0 {
        seq!['-'] + decimal_digits((-v) as nat)
    } else {
        decimal_digits(v as nat)
    }
}

/// Relies on `serde_json::to_string` on an `i32`: the number in decimal.
/// Serialising an integer into memory cannot fail, so the fallback is never taken.
#[verifier::external_body]
fn json_int(n: i32) -> (r: String)
    ensures
        r@ == decimal_text(n as int),
{
    serde_json::to_string(&n).unwrap_or_default()
}

pub open spec fn id_json(id: Option<i32>) -> Seq<char> {
    match id {
        Some(i) => decimal_text(i as int),
        None => "null"@,
    }
}

/// The JSON object for a record whose texts, in field order (name, description,
/// content_rating, developer, publisher, platform, genre, release_date), are already
/// written as JSON strings in `quoted`; a missing id is `null`.
pub open spec fn object_json(id: Option<i32>, rating: i32, quoted: Seq<Seq<char>>) -> Seq<char> {
    "{\"id\":"@ + id_json(id) + ",\"name\":"@ + quoted[0] + ",\"description\":"@ + quoted[1]
        + ",\"rating\":"@ + decimal_text(rating as int) + ",\"content_rating\":"@ + quoted[2]
        + ",\"developer\":"@ + quoted[3] + ",\"publisher\":"@ + quoted[4] + ",\"platform\":"@
        + quoted[5] + ",\"genre\":"@ + quoted[6] + ",\"release_date\":"@ + quoted[7] + "}"@
}

/// The texts of a record in field order, each as a JSON string.
pub open spec fn quoted_texts(v: Videogame) -> Seq<Seq<char>> {
    seq![
        json_text_of(v.name@),
        json_text_of(v.description@),
        json_text_of(v.content_rating@),
        json_text_of(v.developer@),
        json_text_of(v.publisher@),
        json_text_of(v.platform@),
        json_text_of(v.genre@),
        json_text_of(v.release_date@),
    ]
}

/// The JSON object for a record: its fields in declaration order, a missing id as `null`.
pub open spec fn json_of(v: Videogame) -> Seq<char> {
    object_json(v.id, v.rating, quoted_texts(v))
}

/// The objects of `s` joined by commas.
pub open spec fn json_items(s: Seq<Videogame>) -> Seq<char>
    decreases s.len(),
{
    if s.len() == 0 {
        Seq::empty()
    } else if s.len() == 1 {
        json_of(s[0])
    } else {
        json_items(s.drop_last()) + ","@ + json_of(s.last())
    }
}

/// The JSON array of the records of `s`, in order.
pub open spec fn json_list(s: Seq<Videogame>) -> Seq<char> {
    "["@ + json_items(s) + "]"@
}

/// Assembles a record's JSON object from its id, its rating and its eight texts
/// already written as JSON strings (see `object_json`).
pub fn frame_videogame(id: Option<i32>, rating: i32, quoted: &Vec<String>) -> (r: String)
    requires
        quoted@.len() == 8,
    ensures
        r@ == object_json(id, rating, quoted@.map_values(|q: String| q@)),
{
    let ghost q = quoted@.map_values(|q: String| q@);
    let mut out = String::from_str("{\"id\":");
    match id {
        Some(i) => out.append(json_int(i).as_str()),
        None => out.append("null"),
    }
    out.append(",\"name\":");
    out.append(quoted[0].as_str());
    out.append(",\"description\":");
    out.append(quoted[1].as_str());
    out.append(",\"rating\":");
    out.append(json_int(rating).as_str());
    out.append(",\"content_rating\":");
    out.append(quoted[2].as_str());
    out.append(",\"developer\":");
    out.append(quoted[3].as_str());
    out.append(",\"publisher\":");
    out.append(quoted[4].as_str());
    out.append(",\"platform\":");
    out.append(quoted[5].as_str());
    out.append(",\"genre\":");
    out.append(quoted[6].as_str());
    out.append(",\"release_date\":");
    out.append(quoted[7].as_str());
    out.append("}");
    out
}

/// Writes a record as a JSON object (see `json_of`).
pub fn encode_videogame(v: &Videogame) -> (r: String)
    ensures
        r@ == json_of(*v),
{
    let quoted = vec![
        json_text(v.name.as_str()),
        json_text(v.description.as_str()),
        json_text(v.content_rating.as_str()),
        json_text(v.developer.as_str()),
        json_text(v.publisher.as_str()),
        json_text(v.platform.as_str()),
        json_text(v.genre.as_str()),
        json_text(v.release_date.as_str()),
    ];
    let r = frame_videogame(v.id, v.rating, &quoted);
    proof {
        assert(quoted@.map_values(|q: String| q@) =~= quoted_texts(*v));
    }
    r
}

/// Writes records as a JSON array (see `json_list`).
pub fn encode_videogames(vs: &Vec<Videogame>) -> (r: String)
    ensures
        r@ == json_list(vs@),
{
    let mut out = String::from_str("[");
    let mut i: usize = 0;
    proof {
        assert(vs@.subrange(0, 0).len() == 0);
    }
    while i < vs.len()
        invariant
            i <= vs@.len(),
            out@ == "["@ + json_items(vs@.subrange(0, i as int)),
        decreases vs@.len() - i,
    {
        let ghost before = vs@.subrange(0, i as int);
        let ghost after = vs@.subrange(0, i + 1);
        proof {
            assert(after.drop_last() =~= before);
        }
        if i > 0 {
            out.append(",");
        }
        let item = encode_videogame(&vs[i]);
        out.append(item.as_str());
        proof {
            if i == 0 {
                assert(before.len() == 0);
            }
        }
        i = i + 1;
    }
    proof {
        assert(vs@.subrange(0, vs@.len() as int) =~= vs@);
    }
    out.append("]");
    out
}

} // verus!
