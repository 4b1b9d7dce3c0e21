use vstd::prelude::*;
use vstd::string::StringExecFns;

verus! {

/// A piece of a hint text: printable text, or a control code (colour, pause
/// and the like) that carries no text.
pub enum TextElement {
    Text(String),
    Control,
}

/// The printable text of a sequence of text elements.
pub open spec fn text_of(elements: Seq<TextElement>) -> Seq<char>
    decreases elements.len(),
{
    if elements.len() == 0 {
        Seq::empty()
    } else {
        let before = text_of(elements.drop_last());
        match elements.last() {
            TextElement::Text(t) => before + t@,
            TextElement::Control => before,
        }
    }
}

/// Joins the text of `elements`, leaving out control codes.
pub fn concat_text(elements: &Vec<TextElement>) -> (s: String)
    ensures
        s@ == text_of(elements@),
{
    let mut s = String::new();
    for k in 0..elements.len()
        invariant
            s@ == text_of(elements@.subrange(0, k as int)),
    {
        assert(elements@.subrange(0, k + 1).drop_last() =~= elements@.subrange(0, k as int));
        match &elements[k] {
            TextElement::Text(t) => s.append(t.as_str()),
            TextElement::Control => {},
        }
    }
    assert(elements@.subrange(0, elements@.len() as int) =~= elements@);
    s
}

/// The three hints of a piece, from vague to precise.
#[derive(Clone, Debug)]
pub struct Hint {
    pub h1: String,
    pub h2: String,
    pub h3: String,
}

/// Where the hints of each major id start in the hint file, and, last, where
/// the hints end.
pub open spec fn category_bounds() -> Seq<int> {
    seq![0, 8, 32, 40, 48, 64, 80, 88, 96, 104, 107, 148]
}

/// The number of hints the file must hold.
pub const NUM_HINTS: usize = 148;

/// Hint `i` of the file is made of texts `3i`, `3i + 1` and `3i + 2`.
pub open spec fn hint_is_texts(h: Hint, texts: Seq<Vec<TextElement>>, i: int) -> bool {
    &&& h.h1@ == text_of(texts[3 * i]@)
    &&& h.h2@ == text_of(texts[3 * i + 1]@)
    &&& h.h3@ == text_of(texts[3 * i + 2]@)
}

/// The hints of each piece, by major and minor id.
#[derive(Clone, Debug)]
pub struct HintLookup {
    b_normal: Vec<Hint>,
    c_normal: Vec<Hint>,
    b_hidden: Vec<Hint>,
    c_hidden: Vec<Hint>,
    a_undergnd: Vec<Hint>,
    b_undergnd: Vec<Hint>,
    a_2p_undgnd: Vec<Hint>,
    a_pathmove: Vec<Hint>,
    a_1p_tech: Vec<Hint>,
    q_final: Vec<Hint>,
    q_inenemy: Vec<Hint>,
}

fn category_start(c: usize) -> (r: usize)
    requires
        c < 12,
    ensures
        r == category_bounds()[c as int],
{
    let bounds: [usize; 12] = [0, 8, 32, 40, 48, 64, 80, 88, 96, 104, 107, 148];
    assert(bounds@.map_values(|b: usize| b as int) =~= category_bounds());
    assert(bounds@[c as int] as int == bounds@.map_values(|b: usize| b as int)[c as int]);
    bounds[c]
}

impl HintLookup {
    /// The hints of major id `major` (0 to 10), by minor id.
    pub closed spec fn category(&self, major: int) -> Seq<Hint> {
        if major == 0 {
            self.b_normal@
        } else if major == 1 {
            self.c_normal@
        } else if major == 2 {
            self.b_hidden@
        } else if major == 3 {
            self.c_hidden@
        } else if major == 4 {
            self.a_undergnd@
        } else if major == 5 {
            self.b_undergnd@
        } else if major == 6 {
            self.a_2p_undgnd@
        } else if major == 7 {
            self.a_pathmove@
        } else if major == 8 {
            self.a_1p_tech@
        } else if major == 9 {
            self.q_final@
        } else {
            self.q_inenemy@
        }
    }

    /// Builds the table from the texts of a hint file, three texts per hint:
    /// the first 148 hints, in runs of 8, 24, 8, 8, 16, 16, 8, 8, 8, 3 and 41
    /// for major ids 0 to 10. `None` when the texts do not split into whole
    /// hints, or make fewer than 148.
    pub fn from_texts(texts: &Vec<Vec<TextElement>>) -> (r: Option<HintLookup>)
        ensures
            r.is_some() <==> texts@.len() % 3 == 0 && texts@.len() >= 3 * NUM_HINTS,
            r matches Some(h) ==> forall|c: int|
                0 <= c < 11 ==> {
                    &&& #[trigger] h.category(c).len() == category_bounds()[c + 1] - category_bounds()[c]
                    &&& forall|k: int|
                        0 <= k < h.category(c).len() ==> hint_is_texts(
                            #[trigger] h.category(c)[k],
                            texts@,
                            category_bounds()[c] + k,
                        )
                },
    {
        if texts.len() % 3 != 0 || texts.len() < 3 * NUM_HINTS {
            return None;
        }
        let mut categories: Vec<Vec<Hint>> = Vec::new();
        for c in 0..11usize
            invariant
                texts@.len() >= 3 * NUM_HINTS,
                categories.len() == c,
                forall|j: int|
                    0 <= j < c ==> {
                        &&& #[trigger] categories@[j]@.len() == category_bounds()[j + 1] - category_bounds()[j]
                        &&& forall|k: int|
                            0 <= k < categories@[j]@.len() ==> hint_is_texts(
                                #[trigger] categories@[j]@[k],
                                texts@,
                                category_bounds()[j] + k,
                            )
                    },
        {
            let start = category_start(c);
            let end = category_start(c + 1);
            let mut hints: Vec<Hint> = Vec::new();
            for i in start..end
                invariant
                    texts@.len() >= 3 * NUM_HINTS,
                    start == category_bounds()[c as int],
                    end == category_bounds()[c + 1],
                    start <= end <= NUM_HINTS,
                    hints@.len() == i - start,
                    forall|k: int|
                        0 <= k < hints@.len() ==> hint_is_texts(#[trigger] hints@[k], texts@, start + k),
            {
                hints.push(
                    Hint {
                        h1: concat_text(&texts[3 * i]),
                        h2: concat_text(&texts[3 * i + 1]),
                        h3: concat_text(&texts[3 * i + 2]),
                    },
                );
            }
            categories.push(hints);
        }
        let q_inenemy = categories.pop().unwrap();
        let q_final = categories.pop().unwrap();
        let a_1p_tech = categories.pop().unwrap();
        let a_pathmove = categories.pop().unwrap();
        let a_2p_undgnd = categories.pop().unwrap();
        let b_undergnd = categories.pop().unwrap();
        let a_undergnd = categories.pop().unwrap();
        let c_hidden = categories.pop().unwrap();
        let b_hidden = categories.pop().unwrap();
        let c_normal = categories.pop().unwrap();
        let b_normal = categories.pop().unwrap();
        Some(
            HintLookup {
                b_normal,
                c_normal,
                b_hidden,
                c_hidden,
                a_undergnd,
                b_undergnd,
                a_2p_undgnd,
                a_pathmove,
                a_1p_tech,
                q_final,
                q_inenemy,
            },
        )
    }

    /// The table holds hints for the piece with id `id`.
    pub fn has_hints(&self, id: u16) -> (r: bool)
        ensures
            r == (id / 0x100 <= 0x0A && id % 0x100 < self.category((id / 0x100) as int).len()),
    {
        let major = id / 0x100;
        let minor = (id % 0x100) as usize;
        let len = if major == 0x00 {
            self.b_normal.len()
        } else if major == 0x01 {
            self.c_normal.len()
        } else if major == 0x02 {
            self.b_hidden.len()
        } else if major == 0x03 {
            self.c_hidden.len()
        } else if major == 0x04 {
            self.a_undergnd.len()
        } else if major == 0x05 {
            self.b_undergnd.len()
        } else if major == 0x06 {
            self.a_2p_undgnd.len()
        } else if major == 0x07 {
            self.a_pathmove.len()
        } else if major == 0x08 {
            self.a_1p_tech.len()
        } else if major == 0x09 {
            self.q_final.len()
        } else if major == 0x0A {
            self.q_inenemy.len()
        } else {
            return false;
        };
        minor < len
    }

    /// The hints of the piece with id `id`: major id in the high byte, minor
    /// id in the low byte.
    pub fn lookup_piece(&self, id: u16) -> (h: &Hint)
        requires
            id / 0x100 <= 0x0A,
            id % 0x100 < self.category((id / 0x100) as int).len(),
        ensures
            *h == self.category((id / 0x100) as int)[(id % 0x100) as int],
    {
        let major = id >> 8;
        let minor = (id & 0x00FF) as usize;
        assert(major == id / 0x100 && minor == id % 0x100) by (bit_vector)
            requires
                major == id >> 8,
                minor == id & 0x00FF,
        ;
        if major == 0x00 {
            &self.b_normal[minor]
        } else if major == 0x01 {
            &self.c_normal[minor]
        } else if major == 0x02 {
            &self.b_hidden[minor]
        } else if major == 0x03 {
            &self.c_hidden[minor]
        } else if major == 0x04 {
            &self.a_undergnd[minor]
        } else if major == 0x05 {
            &self.b_undergnd[minor]
        } else if major == 0x06 {
            &self.a_2p_undgnd[minor]
        } else if major == 0x07 {
            &self.a_pathmove[minor]
        } else if major == 0x08 {
            &self.a_1p_tech[minor]
        } else if major == 0x09 {
            &self.q_final[minor]
        } else {
            &self.q_inenemy[minor]
        }
    }
}

} // verus!
