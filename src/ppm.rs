use vstd::prelude::*;

verus! {

/// One pixel as three 8-bit channels.
#[derive(Clone, Copy, Debug, PartialEq, Eq)]
pub struct Rgb8 {
    pub r: u8,
    pub g: u8,
    pub b: u8,
}

pub open spec fn digit_char(d: nat) -> char {
    if d == 0 {
        '0'
    } else if d == 1 {
        '1'
    } else if d == 2 {
        '2'
    } else if d == 3 {
        '3'
    } else if d == 4 {
        '4'
    } else if d == 5 {
        '5'
    } else if d == 6 {
        '6'
    } else if d == 7 {
        '7'
    } else if d == 8 {
        '8'
    } else {
        '9'
    }
}

/// The decimal digits of `n`, most significant first, without leading zeros.
pub open spec fn decimal(n: nat) -> Seq<char>
    decreases n,
{
    if n < 10 {
        seq![digit_char(n)]
    } else {
        decimal(n / 10).push(digit_char(n % 10))
    }
}

/// A pixel as text: its three channels in decimal, each followed by a space.
pub open spec fn pixel_text(c: Rgb8) -> Seq<char> {
    decimal(c.r as nat) + seq![' '] + decimal(c.g as nat) + seq![' '] + decimal(c.b as nat) + seq![
        ' ',
    ]
}

/// The text of the first `n` pixels of a row.
pub open spec fn row_text(row: Seq<Rgb8>, n: nat) -> Seq<char>
    decreases n,
{
    if n == 0 {
        Seq::empty()
    } else {
        row_text(row, (n - 1) as nat) + pixel_text(row[n - 1])
    }
}

/// The text of the first `n` rows, each row ended by a newline.
pub open spec fn rows_text(rows: Seq<Vec<Rgb8>>, n: nat) -> Seq<char>
    decreases n,
{
    if n == 0 {
        Seq::empty()
    } else {
        rows_text(rows, (n - 1) as nat) + row_text(rows[n - 1]@, rows[n - 1]@.len()) + seq!['\n']
    }
}

/// The three header lines: the format tag, the width and height, and the
/// largest channel value.
pub open spec fn header_text(width: nat, height: nat) -> Seq<char> {
    seq!['P', '3', '\n'] + decimal(width) + seq![' '] + decimal(height) + seq![
        '\n',
        '2',
        '5',
        '5',
        '\n',
    ]
}

/// A whole image in plain-text PPM: the header, whose width is the length of
/// the first row, then one line per row.
pub open spec fn ppm_text(image: Seq<Vec<Rgb8>>) -> Seq<char> {
    header_text(image[0]@.len(), image.len()) + rows_text(image, image.len())
}

/// Relies on String::push: the character is appended at the end.
#[verifier::external_body]
fn push_char(s: &mut String, c: char)
    ensures
        final(s)@ == old(s)@.push(c),
{
    s.push(c);
}

fn digit(d: u8) -> (c: char)
    requires
        d < 10,
    ensures
        c == digit_char(d as nat),
{
    if d == 0 {
        '0'
    } else if d == 1 {
        '1'
    } else if d == 2 {
        '2'
    } else if d == 3 {
        '3'
    } else if d == 4 {
        '4'
    } else if d == 5 {
        '5'
    } else if d == 6 {
        '6'
    } else if d == 7 {
        '7'
    } else if d == 8 {
        '8'
    } else {
        '9'
    }
}

fn push_decimal(s: &mut String, n: usize)
    ensures
        final(s)@ == old(s)@ + decimal(n as nat),
    decreases n,
{
    if n >= 10 {
        push_decimal(s, n / 10);
    }
    push_char(s, digit((n % 10) as u8));
    assert(s@ =~= old(s)@ + decimal(n as nat));
}

fn push_pixel(s: &mut String, c: Rgb8)
    ensures
        final(s)@ == old(s)@ + pixel_text(c),
{
    push_decimal(s, c.r as usize);
    push_char(s, ' ');
    push_decimal(s, c.g as usize);
    push_char(s, ' ');
    push_decimal(s, c.b as usize);
    push_char(s, ' ');
    assert(s@ =~= old(s)@ + pixel_text(c));
}

/// Writes `image` as plain-text PPM: the header `P3`, the width and height,
/// and `255`, each on a line of its own; then each row on a line, every
/// pixel as three decimal channels followed by a space.
pub fn to_ppm(image: &Vec<Vec<Rgb8>>) -> (r: String)
    requires
        image.len() > 0,
    ensures
        r@ == ppm_text(image@),
{
    let mut s = String::new();
    push_char(&mut s, 'P');
    push_char(&mut s, '3');
    push_char(&mut s, '\n');
    push_decimal(&mut s, image[0].len());
    push_char(&mut s, ' ');
    push_decimal(&mut s, image.len());
    push_char(&mut s, '\n');
    push_char(&mut s, '2');
    push_char(&mut s, '5');
    push_char(&mut s, '5');
    push_char(&mut s, '\n');
    let ghost header = header_text(image@[0]@.len(), image@.len());
    assert(s@ =~= header);
    let mut j: usize = 0;
    while j < image.len()
        invariant
            j <= image@.len(),
            s@ == header + rows_text(image@, j as nat),
        decreases image@.len() - j,
    {
        let row = &image[j];
        let ghost before = s@;
        let mut i: usize = 0;
        while i < row.len()
            invariant
                i <= row@.len(),
                row == image@[j as int],
                s@ == before + row_text(row@, i as nat),
            decreases row@.len() - i,
        {
            push_pixel(&mut s, row[i]);
            assert(s@ =~= before + row_text(row@, (i + 1) as nat));
            i = i + 1;
        }
        push_char(&mut s, '\n');
        assert(s@ =~= header + rows_text(image@, (j + 1) as nat));
        j = j + 1;
    }
    s
}

} // verus!
