//! Backup files: their names, the folder of automatic backups, and which old
//! automatic backups are pruned.
use vstd::prelude::*;
use vstd::string::*;
use vstd::utf8::{
    encode_scalar, encode_utf8, is_ascii_chars, is_ascii_chars_encode_utf8, last_continuation_byte, leading_byte_width_1,
    leading_byte_width_2, leading_byte_width_3, leading_byte_width_4,
};
use rusqlite::Connection;
use crate::clock::{
    backup_due, backup_due_spec, clock_error_text, local_now, now_iso, opt_view, parse_rfc3339,
    rfc3339_instant, utc_now, valid_local_date_time,
    LocalDateTime, Timestamp,
};
use crate::db::{pairs_list, setting_lookup, stored_notes, stored_settings};
use crate::notes::BackupNote;
use crate::settings::{flag_setting, setting_to_bool, SETTING_AUTOMATIC_BACKUPS, SETTING_LAST_AUTOMATIC_BACKUP_AT};
use crate::store::{
    backups_by_creation, backups_list, get_setting, is_clock_text, is_own_message, outside_failure, select_all_settings,
    select_backup_notes,
};
use crate::text::{concat, owned, text_less, text_lt, lemma_text_lt_transitive, views};

verus! {

/// How many automatic backups are kept.
pub const AUTOMATIC_BACKUP_RETENTION: usize = 14;
/// The `format` field of an automatic backup.
pub const AUTOMATIC_BACKUP_FORMAT: &'static str = "flow-notes-backup";
/// The `version` field of an automatic backup.
pub const AUTOMATIC_BACKUP_VERSION: u32 = 1;

/// The decimal digit `d` (below ten).
pub open spec fn digit_char(d: int) -> char {
    if d == 0 {
        '0'
    } else if d == 1 {
        '1'
    } else if d == 2 {
        '2'
    } else if d == 3 {
        '3'
    } else if d == 4 {
        '4'
    } else if d == 5 {
        '5'
    } else if d == 6 {
        '6'
    } else if d == 7 {
        '7'
    } else if d == 8 {
        '8'
    } else {
        '9'
    }
}

/// The last `width` decimal digits of `n`, zero-padded.
pub open spec fn padded(n: nat, width: nat) -> Seq<char>
    decreases width,
{
    if width == 0 {
        Seq::empty()
    } else {
        padded(n / 10, (width - 1) as nat).push(digit_char((n % 10) as int))
    }
}

/// The decimal digits of `n`.
pub open spec fn decimal(n: nat) -> Seq<char>
    decreases n,
{
    if n < 10 {
        seq![digit_char(n as int)]
    } else {
        decimal(n / 10).push(digit_char((n % 10) as int))
    }
}

/// A year as chrono's `%Y` writes it: four zero-padded digits for the years
/// 0 to 9999; otherwise a sign and at least four digits.
pub open spec fn year_text(year: int) -> Seq<char> {
    if 0 <= year <= 9999 {
        padded(year as nat, 4)
    } else {
        let sign = if year < 0 {
            '-'
        } else {
            '+'
        };
        let m: nat = if year < 0 {
            (-year) as nat
        } else {
            year as nat
        };
        if m < 10000 {
            seq![sign] + padded(m, 4)
        } else {
            seq![sign] + decimal(m)
        }
    }
}

/// A date as `%Y-%m-%d` writes it.
pub open spec fn date_text(t: LocalDateTime) -> Seq<char> {
    year_text(t.year as int) + seq!['-'] + padded(t.month as nat, 2) + seq!['-'] + padded(
        t.day as nat,
        2,
    )
}

/// A date and time as `%Y-%m-%d-%H%M%S` writes it.
pub open spec fn stamp_text(t: LocalDateTime) -> Seq<char> {
    date_text(t) + seq!['-'] + padded(t.hour as nat, 2) + padded(t.minute as nat, 2) + padded(
        t.second as nat,
        2,
    )
}

/// The beginning of every backup file name.
pub open spec fn backup_prefix() -> Seq<char> {
    "flow-notes-backup-"@
}

/// The end of every backup file name.
pub open spec fn backup_suffix() -> Seq<char> {
    ".json"@
}

/// The name offered for an export on the given day.
pub open spec fn export_file_name(t: LocalDateTime) -> Seq<char> {
    backup_prefix() + date_text(t) + backup_suffix()
}

/// The name of an automatic backup taken at the given time.
pub open spec fn automatic_file_name(t: LocalDateTime) -> Seq<char> {
    backup_prefix() + stamp_text(t) + backup_suffix()
}

/// Whether a file name is that of an automatic backup: the backup prefix, a
/// middle part of 17 bytes whose byte 10 is `-`, and `.json`.
pub open spec fn is_automatic_name(name: Seq<char>) -> bool {
    let p = backup_prefix();
    let s = backup_suffix();
    &&& name.len() >= p.len() + s.len()
    &&& name.subrange(0, p.len() as int) == p
    &&& name.subrange(name.len() - s.len(), name.len() as int) == s
    &&& {
        let stem = name.subrange(p.len() as int, name.len() - s.len());
        let bytes = encode_utf8(stem);
        bytes.len() == 17 && bytes[10] == 45u8
    }
}

/// The rule as the bytes of a name read it: 40 bytes, the bytes of the
/// backup prefix first and of `.json` last, and a hyphen at byte 28.
pub open spec fn is_automatic_name_bytes(b: Seq<u8>) -> bool {
    &&& b.len() == 40
    &&& b.subrange(0, 18) == encode_utf8(backup_prefix())
    &&& b.subrange(35, 40) == encode_utf8(backup_suffix())
    &&& b[28] == 45u8
}

/// The UTF-8 form of a character: one byte below 128 for an ASCII
/// character, otherwise at least two bytes, the first and the last of them
/// 128 or more.
proof fn lemma_scalar_bytes(c: char)
    ensures
        (c as u32) < 128 ==> encode_scalar(c as u32) == seq![leading_byte_width_1(c as u32)]
            && leading_byte_width_1(c as u32) < 128,
        (c as u32) >= 128 ==> encode_scalar(c as u32).len() >= 2 && encode_scalar(c as u32)[0] >= 128
            && encode_scalar(c as u32).last() >= 128,
{
    let v = c as u32;
    vstd::utf8::char_is_scalar(c);
    if v < 128 {
        assert(leading_byte_width_1(v) < 128) by (bit_vector)
            requires
                v < 128,
        ;
    } else {
        assert(leading_byte_width_2(v) >= 128) by (bit_vector);
        assert(leading_byte_width_3(v) >= 128) by (bit_vector);
        assert(leading_byte_width_4(v) >= 128) by (bit_vector);
        assert(last_continuation_byte(v) >= 128) by (bit_vector);
    }
}

/// Two ASCII values with the same byte are the same.
proof fn lemma_ascii_byte_injective(u: u32, w: u32)
    requires
        u < 128,
        w < 128,
        leading_byte_width_1(u) == leading_byte_width_1(w),
    ensures
        u == w,
{
    assert(u == w) by (bit_vector)
        requires
            u < 128,
            w < 128,
            (u & 0x7F) as u8 == (w & 0x7F) as u8,
    ;
}

/// The UTF-8 form of two texts one after the other is the forms one after
/// the other.
proof fn lemma_encode_concat(a: Seq<char>, b: Seq<char>)
    ensures
        encode_utf8(a + b) == encode_utf8(a) + encode_utf8(b),
    decreases a.len(),
{
    if a.len() == 0 {
        assert(a + b =~= b);
        assert(encode_utf8(a) + encode_utf8(b) =~= encode_utf8(b));
    } else {
        assert((a + b).drop_first() =~= a.drop_first() + b);
        assert((a + b)[0] == a[0]);
        lemma_encode_concat(a.drop_first(), b);
        assert(encode_utf8(a + b) =~= encode_utf8(a) + encode_utf8(b));
    }
}

/// Every byte of the UTF-8 form of an ASCII text is below 128.
proof fn lemma_ascii_bytes_small(a: Seq<char>)
    requires
        is_ascii_chars(a),
    ensures
        encode_utf8(a).len() == a.len(),
        forall|i: int| 0 <= i < a.len() ==> #[trigger] encode_utf8(a)[i] < 128,
    decreases a.len(),
{
    if a.len() > 0 {
        let rest = a.drop_first();
        assert(is_ascii_chars(rest)) by {
            assert forall|i: int| 0 <= i < rest.len() implies '\0' <= #[trigger] rest[i] <= '\u{7f}' by {
                assert(rest[i] == a[i + 1]);
            }
        }
        lemma_ascii_bytes_small(rest);
        assert((a[0] as u32) < 128);
        lemma_scalar_bytes(a[0]);
        let e = encode_utf8(a);
        assert(e =~= seq![leading_byte_width_1(a[0] as u32)] + encode_utf8(rest));
        assert forall|i: int| 0 <= i < a.len() implies #[trigger] e[i] < 128 by {
            if i > 0 {
                assert(e[i] == encode_utf8(rest)[i - 1]);
            }
        }
    }
}

/// A text whose UTF-8 form begins with the bytes of an ASCII text begins
/// with that text, and the rest of its form is the form of the rest.
proof fn lemma_ascii_prefix(name: Seq<char>, a: Seq<char>)
    requires
        is_ascii_chars(a),
        encode_utf8(name).len() >= a.len(),
        encode_utf8(name).subrange(0, a.len() as int) == encode_utf8(a),
    ensures
        a.len() <= name.len(),
        name.subrange(0, a.len() as int) == a,
        encode_utf8(name.subrange(a.len() as int, name.len() as int)) == encode_utf8(name).subrange(
            a.len() as int,
            encode_utf8(name).len() as int,
        ),
    decreases a.len(),
{
    is_ascii_chars_encode_utf8(a);
    let e = encode_utf8(name);
    if a.len() == 0 {
        assert(name.subrange(0, 0) =~= a);
        assert(name.subrange(0, name.len() as int) =~= name);
        assert(e.subrange(0, e.len() as int) =~= e);
    } else {
        assert(name.len() > 0);
        let c = name[0];
        let rest = name.drop_first();
        let ar = a.drop_first();
        lemma_scalar_bytes(c);
        lemma_scalar_bytes(a[0]);
        assert(e[0] == encode_utf8(a)[0]);
        assert((a[0] as u32) < 128);
        assert((c as u32) < 128);
        lemma_ascii_byte_injective(c as u32, a[0] as u32);
        vstd::utf8::char_u32_cast(c, c as u32);
        vstd::utf8::char_u32_cast(a[0], a[0] as u32);
        assert(c == a[0]);
        assert(e =~= seq![leading_byte_width_1(c as u32)] + encode_utf8(rest));
        assert(encode_utf8(a) =~= seq![leading_byte_width_1(c as u32)] + encode_utf8(ar));
        assert(is_ascii_chars(ar)) by {
            assert forall|i: int| 0 <= i < ar.len() implies '\0' <= #[trigger] ar[i] <= '\u{7f}' by {
                assert(ar[i] == a[i + 1]);
            }
        }
        is_ascii_chars_encode_utf8(ar);
        assert(encode_utf8(rest).subrange(0, ar.len() as int) =~= e.subrange(1, a.len() as int));
        assert(e.subrange(1, a.len() as int) =~= e.subrange(0, a.len() as int).subrange(1, a.len() as int));
        assert(encode_utf8(a).subrange(1, a.len() as int) =~= encode_utf8(ar));
        lemma_ascii_prefix(rest, ar);
        assert(name.subrange(0, a.len() as int) =~= seq![c] + rest.subrange(0, ar.len() as int));
        assert(a =~= seq![a[0]] + ar);
        assert(name.subrange(a.len() as int, name.len() as int) =~= rest.subrange(ar.len() as int, rest.len() as int));
        assert(e.subrange(a.len() as int, e.len() as int) =~= encode_utf8(rest).subrange(
            ar.len() as int,
            encode_utf8(rest).len() as int,
        ));
    }
}

/// A text whose UTF-8 form ends with the bytes of an ASCII text ends with
/// that text, and the rest of its form is the form of the rest.
proof fn lemma_ascii_suffix(name: Seq<char>, sfx: Seq<char>)
    requires
        is_ascii_chars(sfx),
        encode_utf8(name).len() >= sfx.len(),
        encode_utf8(name).subrange(encode_utf8(name).len() - sfx.len(), encode_utf8(name).len() as int)
            == encode_utf8(sfx),
    ensures
        sfx.len() <= name.len(),
        name.subrange(name.len() - sfx.len(), name.len() as int) == sfx,
        encode_utf8(name.subrange(0, name.len() - sfx.len())) == encode_utf8(name).subrange(
            0,
            encode_utf8(name).len() - sfx.len(),
        ),
    decreases name.len(),
{
    is_ascii_chars_encode_utf8(sfx);
    let e = encode_utf8(name);
    let k = sfx.len() as int;
    if name.len() == 0 {
        assert(sfx.len() == 0);
        assert(name.subrange(0, 0) =~= sfx);
        assert(e.subrange(0, 0) =~= e);
    } else {
        let c = name[0];
        let rest = name.drop_first();
        let ec = encode_scalar(c as u32);
        let er = encode_utf8(rest);
        assert(e =~= ec + er);
        lemma_scalar_bytes(c);
        if er.len() >= k {
            assert(er.subrange(er.len() - k, er.len() as int) =~= e.subrange(e.len() - k, e.len() as int));
            lemma_ascii_suffix(rest, sfx);
            assert(name.subrange(name.len() - k, name.len() as int) =~= rest.subrange(
                rest.len() - k,
                rest.len() as int,
            ));
            let head = name.subrange(0, name.len() - k);
            assert(head.len() > 0);
            assert(head[0] == c);
            assert(head.drop_first() =~= rest.subrange(0, rest.len() - k));
            assert(encode_utf8(head) =~= ec + encode_utf8(head.drop_first()));
            assert(e.subrange(0, e.len() - k) =~= ec + er.subrange(0, er.len() - k));
        } else {
            let j = ec.len() - 1;
            assert(e[j] == ec.last());
            assert(e[j] == e.subrange(e.len() - k, e.len() as int)[j - (e.len() - k)]);
            lemma_ascii_bytes_small(sfx);
            assert(encode_utf8(sfx)[j - (e.len() - k)] < 128);
            assert((c as u32) < 128);
            assert(e.len() == k);
            assert(e.subrange(0, k) =~= encode_utf8(sfx));
            lemma_ascii_prefix(name, sfx);
            let tail = name.subrange(k, name.len() as int);
            assert(e.subrange(k, e.len() as int).len() == 0);
            if tail.len() > 0 {
                lemma_scalar_bytes(tail[0]);
                assert(encode_utf8(tail) =~= encode_scalar(tail[0] as u32) + encode_utf8(tail.drop_first()));
            }
            assert(name.len() == k);
            assert(name.subrange(0, 0) =~= Seq::<char>::empty());
            assert(encode_utf8(Seq::<char>::empty()) =~= e.subrange(0, 0));
        }
    }
}

/// The name rule read on characters is the rule read on the UTF-8 bytes of
/// the name: 40 bytes, the backup prefix first, `.json` last, and a hyphen at
/// byte 28.
pub proof fn lemma_automatic_name_bytes(name: Seq<char>)
    ensures
        is_automatic_name(name) <==> is_automatic_name_bytes(encode_utf8(name)),
{
    reveal_strlit("flow-notes-backup-");
    reveal_strlit(".json");
    let p = backup_prefix();
    let s = backup_suffix();
    assert(p.len() == 18);
    assert(s.len() == 5);
    assert(is_ascii_chars(p));
    assert(is_ascii_chars(s));
    lemma_ascii_bytes_small(p);
    lemma_ascii_bytes_small(s);
    let e = encode_utf8(name);
    if is_automatic_name(name) {
        let stem = name.subrange(18, name.len() - 5);
        assert(name =~= p + stem + s);
        lemma_encode_concat(p + stem, s);
        lemma_encode_concat(p, stem);
        assert(e =~= encode_utf8(p) + encode_utf8(stem) + encode_utf8(s));
        assert(e.len() == 40);
        assert(e.subrange(0, 18) =~= encode_utf8(p));
        assert(e.subrange(35, 40) =~= encode_utf8(s));
        assert(e[28] == encode_utf8(stem)[10]);
    }
    if is_automatic_name_bytes(e) {
        lemma_ascii_prefix(name, p);
        let after = name.subrange(18, name.len() as int);
        let ea = encode_utf8(after);
        assert(ea =~= e.subrange(18, 40));
        assert(ea.subrange(ea.len() - 5, ea.len() as int) =~= e.subrange(35, 40));
        lemma_ascii_suffix(after, s);
        let stem = after.subrange(0, after.len() - 5);
        assert(stem =~= name.subrange(18, name.len() - 5));
        assert(name.subrange(name.len() - 5, name.len() as int) =~= after.subrange(
            after.len() - 5,
            after.len() as int,
        ));
        assert(encode_utf8(stem) =~= ea.subrange(0, 17));
        assert(encode_utf8(stem)[10] == e[28]);
    }
}

fn digit(d: u64) -> (c: char)
    requires
        d < 10,
    ensures
        c == digit_char(d as int),
{
    if d == 0 {
        '0'
    } else if d == 1 {
        '1'
    } else if d == 2 {
        '2'
    } else if d == 3 {
        '3'
    } else if d == 4 {
        '4'
    } else if d == 5 {
        '5'
    } else if d == 6 {
        '6'
    } else if d == 7 {
        '7'
    } else if d == 8 {
        '8'
    } else {
        '9'
    }
}

fn push_padded(out: &mut String, n: u64, width: u32)
    ensures
        final(out)@ == old(out)@ + padded(n as nat, width as nat),
    decreases width,
{
    if width > 0 {
        push_padded(out, n / 10, width - 1);
        out.push(digit(n % 10));
        assert(old(out)@ + padded(n as nat, width as nat) =~= (old(out)@ + padded(
            (n / 10) as nat,
            (width - 1) as nat,
        )).push(digit_char((n % 10) as int)));
    } else {
        assert(old(out)@ + padded(n as nat, width as nat) =~= old(out)@);
    }
}

fn push_decimal(out: &mut String, n: u64)
    ensures
        final(out)@ == old(out)@ + decimal(n as nat),
    decreases n,
{
    if n >= 10 {
        push_decimal(out, n / 10);
        out.push(digit(n % 10));
        assert(old(out)@ + decimal(n as nat) =~= (old(out)@ + decimal((n / 10) as nat)).push(
            digit_char((n % 10) as int),
        ));
    } else {
        out.push(digit(n));
        assert(old(out)@ + decimal(n as nat) =~= old(out)@.push(digit_char(n as int)));
    }
}

fn push_year(out: &mut String, year: i32)
    ensures
        final(out)@ == old(out)@ + year_text(year as int),
{
    if 0 <= year && year <= 9999 {
        push_padded(out, year as u64, 4);
    } else {
        let m: u64 = if year < 0 {
            (-(year as i64)) as u64
        } else {
            year as u64
        };
        let ghost before = out@;
        if year < 0 {
            out.push('-');
        } else {
            out.push('+');
        }
        if m < 10000 {
            push_padded(out, m, 4);
        } else {
            push_decimal(out, m);
        }
        proof {
            let sign = if year < 0 {
                '-'
            } else {
                '+'
            };
            assert(year_text(year as int) == seq![sign] + if m < 10000 {
                padded(m as nat, 4)
            } else {
                decimal(m as nat)
            });
            assert(out@ =~= before + year_text(year as int));
        }
    }
}

fn push_date(out: &mut String, t: &LocalDateTime)
    ensures
        final(out)@ == old(out)@ + date_text(*t),
{
    push_year(out, t.year);
    out.push('-');
    push_padded(out, t.month as u64, 2);
    out.push('-');
    push_padded(out, t.day as u64, 2);
    assert(out@ =~= old(out)@ + date_text(*t));
}

/// The name offered for an export made at the given local time:
/// `flow-notes-backup-YYYY-MM-DD.json`.
pub fn export_file_name_at(t: &LocalDateTime) -> (r: String)
    ensures
        r@ == export_file_name(*t),
        !is_automatic_name(r@),
{
    proof {
        lemma_export_name_not_automatic(*t);
    }
    let mut out = owned("flow-notes-backup-");
    push_date(&mut out, t);
    let r = concat(out.as_str(), ".json");
    assert(r@ =~= export_file_name(*t));
    r
}

/// The name of an automatic backup taken at the given local time:
/// `flow-notes-backup-YYYY-MM-DD-HHMMSS.json`.
pub fn automatic_backup_file_name_at(t: &LocalDateTime) -> (r: String)
    ensures
        r@ == automatic_file_name(*t),
        valid_local_date_time(*t) && 0 <= t.year <= 9999 ==> is_automatic_name(r@),
{
    proof {
        if valid_local_date_time(*t) && 0 <= t.year <= 9999 {
            lemma_automatic_name_recognized(*t);
        }
    }
    let mut out = owned("flow-notes-backup-");
    push_date(&mut out, t);
    out.push('-');
    push_padded(&mut out, t.hour as u64, 2);
    push_padded(&mut out, t.minute as u64, 2);
    push_padded(&mut out, t.second as u64, 2);
    let r = concat(out.as_str(), ".json");
    assert(r@ =~= automatic_file_name(*t));
    r
}

/// The name offered for an export made now, or `None` when the system
/// clock has no reading.
pub fn default_backup_file_name() -> (r: Option<String>)
    ensures
        r matches Some(name) ==> exists|t: LocalDateTime|
            valid_local_date_time(t) && name@ == export_file_name(t),
        r matches Some(name) ==> !is_automatic_name(name@),
{
    match local_now() {
        Some(t) => Some(export_file_name_at(&t)),
        None => None,
    }
}

/// The name of an automatic backup taken now, or `None` when the system
/// clock has no reading.
pub fn automatic_backup_file_name() -> (r: Option<String>)
    ensures
        r matches Some(name) ==> exists|t: LocalDateTime|
            valid_local_date_time(t) && name@ == automatic_file_name(t),
{
    match local_now() {
        Some(t) => Some(automatic_backup_file_name_at(&t)),
        None => None,
    }
}

/// Whether a file name is that of an automatic backup (see `is_automatic_name`).
pub fn is_automatic_backup_file_name(name: &str) -> (r: bool)
    ensures
        r == is_automatic_name(name@),
        r == is_automatic_name_bytes(encode_utf8(name@)),
{
    proof {
        lemma_automatic_name_bytes(name@);
        reveal_strlit("flow-notes-backup-");
        reveal_strlit(".json");
    }
    let prefix = "flow-notes-backup-";
    let suffix = ".json";
    let n = name.unicode_len();
    let p = prefix.unicode_len();
    let s = suffix.unicode_len();
    if n < p + s {
        return false;
    }
    let head = name.substring_char(0, p);
    let tail = name.substring_char(n - s, n);
    let head_ok = crate::text::same_text(head, prefix);
    let tail_ok = crate::text::same_text(tail, suffix);
    if !head_ok || !tail_ok {
        return false;
    }
    let stem = name.substring_char(p, n - s);
    let bytes = stem.as_bytes();
    bytes.len() == 17 && bytes[10] == 45u8
}

/// The automatic backup folder inside the app data folder, as `Path::join`
/// forms it on Unix: `backups` after the folder and a `/` separator, which is
/// left out when the folder is empty or already ends in `/`.
pub fn automatic_backup_dir(app_data_dir: &str) -> (r: String)
    ensures
        r@ == (if app_data_dir@.len() == 0 || app_data_dir@.last() == '/' {
            app_data_dir@ + "backups"@
        } else {
            app_data_dir@ + "/backups"@
        }),
{
    let n = app_data_dir.unicode_len();
    if n == 0 || app_data_dir.get_char(n - 1) == '/' {
        concat(app_data_dir, "backups")
    } else {
        concat(app_data_dir, "/backups")
    }
}

/// Texts in descending lexicographic order.
pub open spec fn descending(s: Seq<Seq<char>>) -> bool {
    forall|i: int, j: int| 0 <= i < j < s.len() ==> !text_lt(#[trigger] s[i], #[trigger] s[j])
}

/// Which automatic backups to delete, given the names in the backup folder:
/// the names of automatic backups, newest (greatest) first, after the first
/// `AUTOMATIC_BACKUP_RETENTION`. Other file names are never chosen.
pub open spec fn prune_choice(names: Seq<Seq<char>>, kept: Seq<Seq<char>>, removed: Seq<Seq<char>>) -> bool {
    let ordered = kept + removed;
    &&& ordered.to_multiset() == names.filter(|n: Seq<char>| is_automatic_name(n)).to_multiset()
    &&& descending(ordered)
    &&& kept.len() == (if ordered.len() < AUTOMATIC_BACKUP_RETENTION {
        ordered.len()
    } else {
        AUTOMATIC_BACKUP_RETENTION as nat
    })
}

/// Chooses the automatic backups to delete from the names found in the backup
/// folder (see `prune_choice`): the result is the list of names to delete.
pub fn automatic_backups_to_prune(names: &Vec<String>) -> (r: Vec<String>)
    ensures
        exists|kept: Seq<Seq<char>>| prune_choice(views(names@), kept, views(r@)),
{
    broadcast use vstd::seq_lib::group_to_multiset_ensures;
    // The names of automatic backups, in folder order.
    let mut pool: Vec<String> = Vec::new();
    let mut i: usize = 0;
    let ghost pred = |n: Seq<char>| is_automatic_name(n);
    while i < names.len()
        invariant
            i <= names.len(),
            views(pool@) == views(names@).take(i as int).filter(pred),
            pred == (|n: Seq<char>| is_automatic_name(n)),
        decreases names.len() - i,
    {
        reveal_with_fuel(Seq::filter, 1);
        let ghost before = views(pool@);
        let ghost t = views(names@).take(i + 1);
        assert(t.drop_last() =~= views(names@).take(i as int));
        assert(t.last() == names@[i as int]@);
        if is_automatic_backup_file_name(names[i].as_str()) {
            let copy = names[i].clone();
            pool.push(copy);
            assert(views(pool@) =~= before.push(names@[i as int]@));
            assert(pred(t.last()));
            assert(t.filter(pred) == t.drop_last().filter(pred).push(t.last()));
        } else {
            assert(views(pool@) =~= before);
            assert(!pred(t.last()));
            assert(t.filter(pred) == t.drop_last().filter(pred));
        }
        i = i + 1;
    }
    assert(views(names@).take(names.len() as int) =~= views(names@));
    let ghost all = views(pool@);
    // Selection: move the greatest remaining name to the end of `ordered`.
    let mut ordered: Vec<String> = Vec::new();
    while pool.len() > 0
        invariant
            views(ordered@).to_multiset().add(views(pool@).to_multiset()) == all.to_multiset(),
            descending(views(ordered@)),
            forall|a: int, b: int|
                0 <= a < ordered.len() && 0 <= b < pool.len() ==> !text_lt(
                    #[trigger] views(ordered@)[a],
                    #[trigger] views(pool@)[b],
                ),
        decreases pool.len(),
    {
        let mut best: usize = 0;
        let mut k: usize = 1;
        proof {
            crate::text::lemma_text_lt_irreflexive(views(pool@)[0]);
        }
        while k < pool.len()
            invariant
                0 < pool.len(),
                best < pool.len(),
                k <= pool.len(),
                forall|c: int| 0 <= c < k ==> !text_lt(views(pool@)[best as int], #[trigger] views(pool@)[c]),
            decreases pool.len() - k,
        {
            if text_less(pool[best].as_str(), pool[k].as_str()) {
                proof {
                    assert forall|c: int| 0 <= c < k + 1 implies !text_lt(
                        views(pool@)[k as int],
                        #[trigger] views(pool@)[c],
                    ) by {
                        if c < k {
                            if text_lt(views(pool@)[k as int], views(pool@)[c]) {
                                lemma_text_lt_transitive(
                                    views(pool@)[best as int],
                                    views(pool@)[k as int],
                                    views(pool@)[c],
                                );
                            }
                        } else {
                            crate::text::lemma_text_lt_irreflexive(views(pool@)[c]);
                        }
                    }
                }
                best = k;
            } else {
                assert(!text_lt(views(pool@)[best as int], views(pool@)[k as int]));
            }
            k = k + 1;
        }
        proof {
            if pool.len() == 1 {
                crate::text::lemma_text_lt_irreflexive(views(pool@)[0]);
            }
        }
        let ghost old_pool = views(pool@);
        let ghost old_ordered = views(ordered@);
        let chosen = pool.remove(best);
        proof {
            assert(views(pool@) =~= old_pool.remove(best as int));
            assert(chosen@ == old_pool[best as int]);
        }
        ordered.push(chosen);
        proof {
            assert(views(ordered@) =~= old_ordered.push(old_pool[best as int]));
            let x = old_pool[best as int];
            vstd::seq_lib::to_multiset_remove(old_pool, best as int);
            vstd::seq_lib::to_multiset_build(old_ordered, x);
            assert(views(pool@).to_multiset() =~= old_pool.to_multiset().remove(x));
            assert(views(ordered@).to_multiset() =~= old_ordered.to_multiset().insert(x));
            old_pool.to_multiset_ensures();
            assert(old_pool[best as int] == x);
            assert(old_pool.contains(x));
            assert(old_pool.to_multiset().count(x) > 0);
            assert(views(ordered@).to_multiset().add(views(pool@).to_multiset()) =~= all.to_multiset());
            assert forall|a: int, b: int|
                0 <= a < ordered.len() && 0 <= b < pool.len() implies !text_lt(
                    #[trigger] views(ordered@)[a],
                    #[trigger] views(pool@)[b],
                ) by {
                let y = views(pool@)[b];
                let bi = if b < best { b } else { b + 1 };
                assert(y == old_pool[bi]);
                if a < old_ordered.len() {
                    assert(views(ordered@)[a] == old_ordered[a]);
                } else {
                    assert(views(ordered@)[a] == old_pool[best as int]);
                }
            }
            assert forall|a: int, b: int| 0 <= a < b < views(ordered@).len() implies !text_lt(
                #[trigger] views(ordered@)[a],
                #[trigger] views(ordered@)[b],
            ) by {
                if b == old_ordered.len() {
                    assert(views(ordered@)[b] == old_pool[best as int]);
                    assert(views(ordered@)[a] == old_ordered[a]);
                } else {
                    assert(views(ordered@)[a] == old_ordered[a]);
                    assert(views(ordered@)[b] == old_ordered[b]);
                }
            }
        }
    }
    assert(views(pool@) =~= Seq::<Seq<char>>::empty());
    assert(views(ordered@).to_multiset() =~= all.to_multiset());
    let mut removed: Vec<String> = Vec::new();
    let mut j: usize = AUTOMATIC_BACKUP_RETENTION;
    while j < ordered.len()
        invariant
            AUTOMATIC_BACKUP_RETENTION <= j,
            j <= ordered.len() || ordered.len() < AUTOMATIC_BACKUP_RETENTION,
            ordered.len() >= AUTOMATIC_BACKUP_RETENTION ==> views(removed@) == views(ordered@).subrange(
                AUTOMATIC_BACKUP_RETENTION as int,
                j as int,
            ),
            ordered.len() < AUTOMATIC_BACKUP_RETENTION ==> removed@.len() == 0,
        decreases ordered.len() - j,
    {
        let ghost before = views(removed@);
        let copy = ordered[j].clone();
        removed.push(copy);
        assert(views(removed@) =~= before.push(ordered@[j as int]@));
        assert(views(removed@) =~= views(ordered@).subrange(
            AUTOMATIC_BACKUP_RETENTION as int,
            j + 1,
        ));
        j = j + 1;
    }
    proof {
        let o = views(ordered@);
        let kept = if o.len() < AUTOMATIC_BACKUP_RETENTION {
            o
        } else {
            o.subrange(0, AUTOMATIC_BACKUP_RETENTION as int)
        };
        if o.len() < AUTOMATIC_BACKUP_RETENTION {
            assert(views(removed@) =~= Seq::<Seq<char>>::empty());
            assert(kept + views(removed@) =~= o);
        } else {
            assert(views(removed@) =~= o.subrange(AUTOMATIC_BACKUP_RETENTION as int, o.len() as int));
            assert(kept + views(removed@) =~= o);
        }
        assert(prune_choice(views(names@), kept, views(removed@)));
    }
    removed
}

/// A snapshot of the store for an automatic backup.
#[derive(Clone, Debug)]
pub struct AutomaticBackup {
    pub format: String,
    pub version: u32,
    pub created_at: String,
    pub notes: Vec<BackupNote>,
    pub settings: Vec<(String, String)>,
}

/// Takes a snapshot of the store for an automatic backup: the backup format
/// and version, the current time, every note oldest first, and every setting.
/// An error, with nothing read, when the system clock has no reading.
pub fn build_automatic_backup(db: &Connection) -> (r: Result<AutomaticBackup, String>)
    ensures
        r matches Err(e) ==> outside_failure(e@),
        r matches Ok(b) ==> {
            &&& b.format@ == AUTOMATIC_BACKUP_FORMAT@
            &&& b.version == AUTOMATIC_BACKUP_VERSION
            &&& is_clock_text(b.created_at@)
            &&& backups_list(b.notes@, stored_notes(*db))
            &&& backups_by_creation(b.notes@)
            &&& pairs_list(b.settings@, stored_settings(*db))
        },
{
    let created_at = match now_iso() {
        Some(t) => t,
        None => return Err(clock_error_text()),
    };
    let notes = match select_backup_notes(db) {
        Ok(v) => v,
        Err(e) => return Err(e),
    };
    let settings = match select_all_settings(db) {
        Ok(v) => v,
        Err(e) => return Err(e),
    };
    Ok(
        AutomaticBackup {
            format: owned(AUTOMATIC_BACKUP_FORMAT),
            version: AUTOMATIC_BACKUP_VERSION,
            created_at,
            notes,
            settings,
        },
    )
}

/// The setting that switches automatic backups on, and the last backup time
/// when the rule needs it (automatic backups on and not forced).
fn automatic_backup_inputs(db: &Connection, forced: bool) -> (r: Result<(bool, Option<String>), String>)
    ensures
        r matches Err(e) ==> !is_own_message(e@),
        r matches Ok((enabled, last)) ==> {
            &&& enabled == flag_setting(stored_settings(*db), SETTING_AUTOMATIC_BACKUPS@, "1"@)
            &&& enabled && !forced ==> opt_view(last) == setting_lookup(
                stored_settings(*db),
                SETTING_LAST_AUTOMATIC_BACKUP_AT@,
            )
            &&& !enabled || forced ==> last is None
        },
{
    let enabled = match get_setting(db, SETTING_AUTOMATIC_BACKUPS) {
        Ok(Some(v)) => setting_to_bool(v.as_str()),
        Ok(None) => setting_to_bool("1"),
        Err(e) => return Err(e),
    };
    if !enabled || forced {
        return Ok((enabled, None));
    }
    match get_setting(db, SETTING_LAST_AUTOMATIC_BACKUP_AT) {
        Ok(last) => Ok((enabled, last)),
        Err(e) => Err(e),
    }
}

/// Whether an automatic backup is due at `now` (see `backup_due_spec`):
/// automatic backups are on unless switched off, `forced` stands for the
/// environment override, and the last backup time is the stored one.
pub fn should_run_automatic_backup_at(db: &Connection, forced: bool, now: Timestamp) -> (r: Result<bool, String>)
    ensures
        r matches Err(e) ==> !is_own_message(e@),
        r matches Ok(b) ==> b == backup_due_spec(
            flag_setting(stored_settings(*db), SETTING_AUTOMATIC_BACKUPS@, "1"@),
            forced,
            setting_lookup(stored_settings(*db), SETTING_LAST_AUTOMATIC_BACKUP_AT@),
            now,
        ),
{
    let (enabled, last) = match automatic_backup_inputs(db, forced) {
        Ok(v) => v,
        Err(e) => return Err(e),
    };
    Ok(backup_due(enabled, forced, last, now))
}

/// Whether the rule decides without the time: automatic backups off, forced,
/// or no readable last backup time.
pub open spec fn decided_without_clock(enabled: bool, forced: bool, last: Option<Seq<char>>) -> bool {
    !enabled || forced || last is None || rfc3339_instant(last->Some_0) is None
}

/// Whether an automatic backup is due now (see
/// `should_run_automatic_backup_at`). The clock is read only when the answer
/// depends on it; an error when it has no reading then.
pub fn should_run_automatic_backup(db: &Connection, forced: bool) -> (r: Result<bool, String>)
    ensures
        decided_without_clock(
            flag_setting(stored_settings(*db), SETTING_AUTOMATIC_BACKUPS@, "1"@),
            forced,
            setting_lookup(stored_settings(*db), SETTING_LAST_AUTOMATIC_BACKUP_AT@),
        ) ==> r is Ok || (r matches Err(e) && !is_own_message(e@)),
        r matches Err(e) ==> outside_failure(e@),
        r matches Ok(b) ==> exists|now: Timestamp|
            b == backup_due_spec(
                flag_setting(stored_settings(*db), SETTING_AUTOMATIC_BACKUPS@, "1"@),
                forced,
                setting_lookup(stored_settings(*db), SETTING_LAST_AUTOMATIC_BACKUP_AT@),
                now,
            ),
        r matches Ok(b) ==> decided_without_clock(
            flag_setting(stored_settings(*db), SETTING_AUTOMATIC_BACKUPS@, "1"@),
            forced,
            setting_lookup(stored_settings(*db), SETTING_LAST_AUTOMATIC_BACKUP_AT@),
        ) ==> forall|now: Timestamp|
            b == backup_due_spec(
                flag_setting(stored_settings(*db), SETTING_AUTOMATIC_BACKUPS@, "1"@),
                forced,
                setting_lookup(stored_settings(*db), SETTING_LAST_AUTOMATIC_BACKUP_AT@),
                now,
            ),
{
    let (enabled, last) = match automatic_backup_inputs(db, forced) {
        Ok(v) => v,
        Err(e) => return Err(e),
    };
    let needs_clock = match &last {
        None => false,
        Some(text) => parse_rfc3339(text.as_str()).is_some(),
    };
    if !enabled || forced || !needs_clock {
        let ghost m = stored_settings(*db);
        let ghost stored_last = setting_lookup(m, SETTING_LAST_AUTOMATIC_BACKUP_AT@);
        assert(forall|now: Timestamp| enabled == backup_due_spec(enabled, forced, stored_last, now));
        assert(enabled == backup_due_spec(enabled, forced, stored_last, Timestamp { secs: 0, nanos: 0 }));
        return Ok(enabled);
    }
    match utc_now() {
        Some(now) => Ok(backup_due(enabled, forced, last, now)),
        None => Err(clock_error_text()),
    }
}

/// Whether a character is a decimal digit.
pub open spec fn is_digit_char(c: char) -> bool {
    '0' <= c <= '9'
}

proof fn lemma_digit_char(d: int)
    ensures
        is_digit_char(digit_char(d)),
{
}

proof fn lemma_padded_digits(n: nat, width: nat)
    ensures
        padded(n, width).len() == width,
        forall|i: int| 0 <= i < width ==> is_digit_char(#[trigger] padded(n, width)[i]),
    decreases width,
{
    if width > 0 {
        lemma_padded_digits(n / 10, (width - 1) as nat);
        lemma_digit_char((n % 10) as int);
        let p = padded(n, width);
        assert forall|i: int| 0 <= i < width implies is_digit_char(#[trigger] p[i]) by {
            if i < width - 1 {
                assert(p[i] == padded(n / 10, (width - 1) as nat)[i]);
            }
        }
    }
}

proof fn lemma_decimal_digits(n: nat)
    ensures
        decimal(n).len() >= 1,
        forall|i: int| 0 <= i < decimal(n).len() ==> is_digit_char(#[trigger] decimal(n)[i]),
    decreases n,
{
    lemma_digit_char((n % 10) as int);
    lemma_digit_char(n as int);
    if n >= 10 {
        lemma_decimal_digits(n / 10);
        let p = decimal(n);
        let q = decimal(n / 10);
        assert forall|i: int| 0 <= i < p.len() implies is_digit_char(#[trigger] p[i]) by {
            if i < q.len() {
                assert(p[i] == q[i]);
            }
        }
    }
}

/// The text of a year is ASCII and ends in a digit.
proof fn lemma_year_text(year: int)
    ensures
        year_text(year).len() >= 4,
        0 <= year <= 9999 ==> year_text(year).len() == 4,
        is_ascii_chars(year_text(year)),
        is_digit_char(year_text(year).last()),
{
    let y = year_text(year);
    if 0 <= year <= 9999 {
        lemma_padded_digits(year as nat, 4);
    } else {
        let m: nat = if year < 0 {
            (-year) as nat
        } else {
            year as nat
        };
        let sign = if year < 0 {
            '-'
        } else {
            '+'
        };
        let digits = if m < 10000 {
            padded(m, 4)
        } else {
            decimal(m)
        };
        if m < 10000 {
            lemma_padded_digits(m, 4);
        } else {
            lemma_decimal_digits(m);
            assert(decimal(m).len() >= 4) by {
                lemma_decimal_long(m);
            }
        }
        assert(y == seq![sign] + digits);
        assert forall|i: int| 0 <= i < y.len() implies '\0' <= #[trigger] y[i] <= '\u{7f}' by {
            if i > 0 {
                assert(y[i] == digits[i - 1]);
            }
        }
        assert(y.last() == digits.last());
    }
}

proof fn lemma_decimal_long(m: nat)
    requires
        m >= 10000,
    ensures
        decimal(m).len() >= 4,
{
    let m1 = m / 10;
    let m2 = m1 / 10;
    let m3 = m2 / 10;
    assert(m1 >= 1000 && m2 >= 100 && m3 >= 10);
    lemma_decimal_digits(m3 / 10);
    assert(decimal(m3).len() == decimal(m3 / 10).len() + 1);
    assert(decimal(m2).len() == decimal(m3).len() + 1);
    assert(decimal(m1).len() == decimal(m2).len() + 1);
    assert(decimal(m).len() == decimal(m1).len() + 1);
}

/// The name of an automatic backup taken in a year from 0 to 9999 is
/// recognized as an automatic backup name, so pruning counts it.
pub proof fn lemma_automatic_name_recognized(t: LocalDateTime)
    requires
        valid_local_date_time(t),
        0 <= t.year <= 9999,
    ensures
        is_automatic_name(automatic_file_name(t)),
{
    reveal_strlit("flow-notes-backup-");
    reveal_strlit(".json");
    lemma_year_text(t.year as int);
    lemma_padded_digits(t.month as nat, 2);
    lemma_padded_digits(t.day as nat, 2);
    lemma_padded_digits(t.hour as nat, 2);
    lemma_padded_digits(t.minute as nat, 2);
    lemma_padded_digits(t.second as nat, 2);
    let stem = stamp_text(t);
    let name = automatic_file_name(t);
    let p = backup_prefix();
    let s = backup_suffix();
    assert(stem.len() == 17);
    assert(stem[10] == '-');
    assert(is_ascii_chars(stem)) by {
        assert forall|i: int| 0 <= i < stem.len() implies '\0' <= #[trigger] stem[i] <= '\u{7f}' by {
            if i < 4 {
                assert(stem[i] == year_text(t.year as int)[i]);
            } else if 5 <= i < 7 {
                assert(stem[i] == padded(t.month as nat, 2)[i - 5]);
            } else if 8 <= i < 10 {
                assert(stem[i] == padded(t.day as nat, 2)[i - 8]);
            } else if 11 <= i < 13 {
                assert(stem[i] == padded(t.hour as nat, 2)[i - 11]);
            } else if 13 <= i < 15 {
                assert(stem[i] == padded(t.minute as nat, 2)[i - 13]);
            } else if 15 <= i < 17 {
                assert(stem[i] == padded(t.second as nat, 2)[i - 15]);
            }
        }
    }
    is_ascii_chars_encode_utf8(stem);
    assert(name.subrange(0, p.len() as int) =~= p);
    assert(name.subrange(name.len() - s.len(), name.len() as int) =~= s);
    assert(name.subrange(p.len() as int, name.len() - s.len()) =~= stem);
}

/// The name offered for an export is never taken for an automatic backup,
/// so pruning never deletes an export.
pub proof fn lemma_export_name_not_automatic(t: LocalDateTime)
    ensures
        !is_automatic_name(export_file_name(t)),
{
    reveal_strlit("flow-notes-backup-");
    reveal_strlit(".json");
    lemma_year_text(t.year as int);
    lemma_padded_digits(t.month as nat, 2);
    lemma_padded_digits(t.day as nat, 2);
    let y = year_text(t.year as int);
    let stem = date_text(t);
    let name = export_file_name(t);
    let p = backup_prefix();
    let s = backup_suffix();
    assert(stem.len() == y.len() + 6);
    assert(is_ascii_chars(stem)) by {
        assert forall|i: int| 0 <= i < stem.len() implies '\0' <= #[trigger] stem[i] <= '\u{7f}' by {
            let n = y.len() as int;
            if i < n {
                assert(stem[i] == y[i]);
            } else if n + 1 <= i < n + 3 {
                assert(stem[i] == padded(t.month as nat, 2)[i - n - 1]);
            } else if n + 4 <= i < n + 6 {
                assert(stem[i] == padded(t.day as nat, 2)[i - n - 4]);
            }
        }
    }
    is_ascii_chars_encode_utf8(stem);
    assert(name.subrange(p.len() as int, name.len() - s.len()) =~= stem);
    if encode_utf8(stem).len() == 17 {
        assert(y.len() == 11);
        assert(stem[10] == y[10]);
        assert(stem[10] as u8 != 45u8);
    }
}

/// Two decimal digits spell a number below 100 when, and only when, they
/// are its tens and its units.
proof fn lemma_two_digits(n: nat)
    requires
        n < 100,
    ensures
        padded(n, 2) == seq![digit_char((n / 10) as int), digit_char((n % 10) as int)],
{
    assert(n / 10 < 10);
    assert((n / 10) % 10 == n / 10);
    assert(padded(n / 10 / 10, 0) =~= Seq::<char>::empty());
    assert(padded(n / 10, 1) =~= seq![digit_char(((n / 10) % 10) as int)]);
    assert(padded(n, 2) =~= padded(n / 10, 1).push(digit_char((n % 10) as int)));
    assert(padded(n, 2) =~= seq![digit_char((n / 10) as int), digit_char((n % 10) as int)]);
}

proof fn lemma_digit_char_injective(a: int, b: int)
    requires
        0 <= a < 10,
        0 <= b < 10,
        digit_char(a) == digit_char(b),
    ensures
        a == b,
{
}

/// An automatic backup name carries the time on a 24-hour clock: for a time
/// in the years 0 to 9999 it is 40 characters long, and its characters 29 to
/// 34 are the tens and units of the hour (0 to 23), the minute and the
/// second.
pub proof fn law_automatic_name_time_digits(t: LocalDateTime)
    requires
        valid_local_date_time(t),
        0 <= t.year <= 9999,
    ensures
        automatic_file_name(t).len() == 40,
        automatic_file_name(t)[29] == digit_char((t.hour / 10) as int),
        automatic_file_name(t)[30] == digit_char((t.hour % 10) as int),
        automatic_file_name(t)[31] == digit_char((t.minute / 10) as int),
        automatic_file_name(t)[32] == digit_char((t.minute % 10) as int),
        automatic_file_name(t)[33] == digit_char((t.second / 10) as int),
        automatic_file_name(t)[34] == digit_char((t.second % 10) as int),
{
    reveal_strlit("flow-notes-backup-");
    reveal_strlit(".json");
    lemma_year_text(t.year as int);
    lemma_padded_digits(t.month as nat, 2);
    lemma_padded_digits(t.day as nat, 2);
    lemma_two_digits(t.hour as nat);
    lemma_two_digits(t.minute as nat);
    lemma_two_digits(t.second as nat);
    let name = automatic_file_name(t);
    let head = backup_prefix() + date_text(t) + seq!['-'];
    assert(head.len() == 29);
    assert(name =~= head + padded(t.hour as nat, 2) + padded(t.minute as nat, 2) + padded(t.second as nat, 2)
        + backup_suffix());
}

/// Two automatic backups taken on the same day get the same name only when
/// they are taken at the same hour, minute and second.
pub proof fn law_automatic_names_tell_times_apart(t1: LocalDateTime, t2: LocalDateTime)
    requires
        valid_local_date_time(t1),
        valid_local_date_time(t2),
        0 <= t1.year <= 9999,
        t1.year == t2.year,
        t1.month == t2.month,
        t1.day == t2.day,
        automatic_file_name(t1) == automatic_file_name(t2),
    ensures
        t1.hour == t2.hour,
        t1.minute == t2.minute,
        t1.second == t2.second,
{
    law_automatic_name_time_digits(t1);
    law_automatic_name_time_digits(t2);
    lemma_digit_char_injective((t1.hour / 10) as int, (t2.hour / 10) as int);
    lemma_digit_char_injective((t1.hour % 10) as int, (t2.hour % 10) as int);
    lemma_digit_char_injective((t1.minute / 10) as int, (t2.minute / 10) as int);
    lemma_digit_char_injective((t1.minute % 10) as int, (t2.minute % 10) as int);
    lemma_digit_char_injective((t1.second / 10) as int, (t2.second / 10) as int);
    lemma_digit_char_injective((t1.second % 10) as int, (t2.second % 10) as int);
}

proof fn lemma_digit_char_order(a: int, b: int)
    requires
        0 <= a < b < 10,
    ensures
        (digit_char(a) as u32) < (digit_char(b) as u32),
{
}

/// A text comes before another of the same length when they agree up to a
/// position where its character is the smaller.
proof fn lemma_text_lt_at(a: Seq<char>, b: Seq<char>, k: int)
    requires
        a.len() == b.len(),
        0 <= k < a.len(),
        forall|i: int| 0 <= i < k ==> a[i] == b[i],
        (a[k] as u32) < (b[k] as u32),
    ensures
        text_lt(a, b),
    decreases k,
{
    if k > 0 {
        assert(a[0] == b[0]);
        lemma_text_lt_at(a.drop_first(), b.drop_first(), k - 1);
    }
}

/// Two automatic backup names of the same day agree on their first 29
/// characters: the prefix, the date and the hyphen after it.
proof fn lemma_automatic_name_head(t1: LocalDateTime, t2: LocalDateTime)
    requires
        t1.year == t2.year,
        t1.month == t2.month,
        t1.day == t2.day,
        0 <= t1.year <= 9999,
    ensures
        forall|i: int| 0 <= i < 29 ==> #[trigger] automatic_file_name(t1)[i] == automatic_file_name(t2)[i],
{
    reveal_strlit("flow-notes-backup-");
    lemma_year_text(t1.year as int);
    lemma_padded_digits(t1.month as nat, 2);
    lemma_padded_digits(t1.day as nat, 2);
    let head = backup_prefix() + date_text(t1) + seq!['-'];
    assert(head.len() == 29);
    assert(date_text(t1) == date_text(t2));
    let tail1 = padded(t1.hour as nat, 2) + padded(t1.minute as nat, 2) + padded(t1.second as nat, 2) + backup_suffix();
    let tail2 = padded(t2.hour as nat, 2) + padded(t2.minute as nat, 2) + padded(t2.second as nat, 2) + backup_suffix();
    assert(automatic_file_name(t1) =~= head + tail1);
    assert(automatic_file_name(t2) =~= head + tail2);
}

/// Within a day, automatic backup names sort as the times they were taken:
/// an earlier hour, minute and second gives a name that comes first as text.
pub proof fn law_automatic_names_sort_by_time(t1: LocalDateTime, t2: LocalDateTime)
    requires
        valid_local_date_time(t1),
        valid_local_date_time(t2),
        0 <= t1.year <= 9999,
        t1.year == t2.year,
        t1.month == t2.month,
        t1.day == t2.day,
        t1.hour < t2.hour || (t1.hour == t2.hour && (t1.minute < t2.minute || (t1.minute == t2.minute
            && t1.second < t2.second))),
    ensures
        text_lt(automatic_file_name(t1), automatic_file_name(t2)),
{
    law_automatic_name_time_digits(t1);
    law_automatic_name_time_digits(t2);
    lemma_automatic_name_head(t1, t2);
    let a = automatic_file_name(t1);
    let b = automatic_file_name(t2);
    let h1 = t1.hour as int;
    let h2 = t2.hour as int;
    let m1 = t1.minute as int;
    let m2 = t2.minute as int;
    let s1 = t1.second as int;
    let s2 = t2.second as int;
    assert(h1 == 10 * (h1 / 10) + h1 % 10);
    assert(h2 == 10 * (h2 / 10) + h2 % 10);
    assert(m1 == 10 * (m1 / 10) + m1 % 10);
    assert(m2 == 10 * (m2 / 10) + m2 % 10);
    assert(s1 == 10 * (s1 / 10) + s1 % 10);
    assert(s2 == 10 * (s2 / 10) + s2 % 10);
    if h1 / 10 != h2 / 10 {
        lemma_digit_char_order(h1 / 10, h2 / 10);
        lemma_text_lt_at(a, b, 29);
    } else if h1 % 10 != h2 % 10 {
        lemma_digit_char_order(h1 % 10, h2 % 10);
        lemma_text_lt_at(a, b, 30);
    } else if m1 / 10 != m2 / 10 {
        assert(h1 == h2);
        lemma_digit_char_order(m1 / 10, m2 / 10);
        lemma_text_lt_at(a, b, 31);
    } else if m1 % 10 != m2 % 10 {
        assert(h1 == h2);
        lemma_digit_char_order(m1 % 10, m2 % 10);
        lemma_text_lt_at(a, b, 32);
    } else if s1 / 10 != s2 / 10 {
        assert(h1 == h2 && m1 == m2);
        lemma_digit_char_order(s1 / 10, s2 / 10);
        lemma_text_lt_at(a, b, 33);
    } else {
        assert(h1 == h2 && m1 == m2);
        assert(s1 % 10 != s2 % 10);
        lemma_digit_char_order(s1 % 10, s2 % 10);
        lemma_text_lt_at(a, b, 34);
    }
}

/// Pruning deletes only automatic backups found in the folder: every name
/// chosen for deletion is an automatic backup name and one of the given names.
pub proof fn lemma_prune_deletes_only_automatic_backups(
    names: Seq<Seq<char>>,
    kept: Seq<Seq<char>>,
    removed: Seq<Seq<char>>,
)
    requires
        prune_choice(names, kept, removed),
    ensures
        forall|i: int| 0 <= i < removed.len() ==> is_automatic_name(#[trigger] removed[i]) && names.contains(
            removed[i],
        ),
{
    broadcast use vstd::seq_lib::group_to_multiset_ensures;
    let pred = |n: Seq<char>| is_automatic_name(n);
    let ordered = kept + removed;
    let pool = names.filter(pred);
    assert forall|i: int| 0 <= i < removed.len() implies is_automatic_name(#[trigger] removed[i]) && names.contains(
        removed[i],
    ) by {
        let x = removed[i];
        assert(ordered[kept.len() + i] == x);
        assert(ordered.contains(x));
        assert(ordered.to_multiset().count(x) > 0);
        assert(pool.to_multiset().count(x) > 0);
        assert(pool.contains(x));
        let j = choose|j: int| 0 <= j < pool.len() && pool[j] == x;
        names.lemma_filter_pred(pred, j);
        names.lemma_filter_contains_rev(pred, x);
    }
}

} // verus!
