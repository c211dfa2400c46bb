use vstd::prelude::*;

verus! {

/// A byte that ends a field: a comma, and also a newline when the text is
/// read line by line.
pub open spec fn is_separator(b: u8, split_lines: bool) -> bool {
    b == 0x2Cu8 || (split_lines && b == 0x0Au8)
}

/// The span `[start, end)` of `text` holds no separator.
pub open spec fn separator_free(text: Seq<u8>, start: int, end: int, split_lines: bool) -> bool {
    forall|q: int| start <= q < end ==> !is_separator(#[trigger] text[q], split_lines)
}

/// `spans` cuts `text` into its fields: the spans follow one another from the
/// start of the text to its end, each one separated from the next by exactly
/// one separator byte, and none contains a separator.
pub open spec fn fields_of(text: Seq<u8>, spans: Seq<(usize, usize)>, split_lines: bool) -> bool {
    &&& spans.len() >= 1
    &&& spans[0].0 == 0
    &&& spans.last().1 == text.len()
    &&& forall|k: int|
        0 <= k < spans.len() ==> #[trigger] spans[k].0 <= spans[k].1
            && separator_free(text, spans[k].0 as int, spans[k].1 as int, split_lines)
    &&& forall|k: int|
        0 <= k < spans.len() - 1 ==> #[trigger] spans[k + 1].0 == spans[k].1 + 1
            && is_separator(text[spans[k].1 as int], split_lines)
}

/// The byte spans of the fields of `text`, which are separated by commas,
/// and by newlines too when `split_lines` holds. Empty fields are kept, so
/// there is always at least one.
pub fn field_spans(text: &[u8], split_lines: bool) -> (r: Vec<(usize, usize)>)
    ensures
        fields_of(text@, r@, split_lines),
{
    let mut spans: Vec<(usize, usize)> = Vec::new();
    let mut start: usize = 0;
    let mut p: usize = 0;
    while p < text.len()
        invariant
            start <= p <= text@.len(),
            spans@.len() == 0 ==> start == 0,
            spans@.len() > 0 ==> spans@[0].0 == 0 && start == spans@.last().1 + 1
                && is_separator(text@[spans@.last().1 as int], split_lines),
            forall|k: int|
                0 <= k < spans@.len() ==> #[trigger] spans@[k].0 <= spans@[k].1 < start
                    && separator_free(text@, spans@[k].0 as int, spans@[k].1 as int, split_lines),
            forall|k: int|
                0 <= k < spans@.len() - 1 ==> #[trigger] spans@[k + 1].0 == spans@[k].1 + 1
                    && is_separator(text@[spans@[k].1 as int], split_lines),
            separator_free(text@, start as int, p as int, split_lines),
        decreases text@.len() - p,
    {
        let b = text[p];
        if b == 0x2Cu8 || (split_lines && b == 0x0Au8) {
            spans.push((start, p));
            start = p + 1;
        }
        p = p + 1;
    }
    spans.push((start, text.len()));
    spans
}

} // verus!
