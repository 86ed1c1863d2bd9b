use bcdown::utils::{bytes_with_unit, parse_id, ByteSize, ByteUnit};

fn plain_parse_id(s: String) -> Option<u32> {
    if s.parse::<u32>().is_ok() {
        return Some(s.parse::<u32>().unwrap());
    }
    if s.contains("mc") {
        let id = s.split("mc").collect::<Vec<&str>>()[1];
        let id = id.chars().take_while(|c| c.is_numeric()).collect::<String>();
        if let Ok(id) = id.parse::<u32>() {
            return Some(id);
        }
    }
    None
}

#[test]
fn parse_id_reads_a_number() {
    assert_eq!(parse_id("29911".to_string()), Some(29911));
    assert_eq!(parse_id("+7".to_string()), Some(7));
    assert_eq!(parse_id("0".to_string()), Some(0));
}

#[test]
fn parse_id_reads_a_link() {
    assert_eq!(parse_id("mc29911".to_string()), Some(29911));
    assert_eq!(parse_id("https://manga.bilibili.com/detail/mc29911".to_string()), Some(29911));
    assert_eq!(
        parse_id("https://manga.bilibili.com/detail/mc29911?from=manga_homepage".to_string()),
        Some(29911)
    );
    assert_eq!(parse_id("https://manga.bilibili.com/mc29911/418891".to_string()), Some(29911));
}

#[test]
fn parse_id_takes_the_first_mark() {
    assert_eq!(parse_id("mc12mc34".to_string()), Some(12));
    assert_eq!(parse_id("mcmc34".to_string()), None);
    assert_eq!(parse_id("mmc5".to_string()), Some(5));
    assert_eq!(parse_id("xmc".to_string()), None);
}

#[test]
fn parse_id_rejects_what_names_no_work() {
    assert_eq!(parse_id("".to_string()), None);
    assert_eq!(parse_id("abc".to_string()), None);
    assert_eq!(parse_id("mc".to_string()), None);
    assert_eq!(parse_id("mcx1".to_string()), None);
    assert_eq!(parse_id("mc99999999999".to_string()), None);
    assert_eq!(parse_id("mc4294967296".to_string()), None);
    assert_eq!(parse_id("mc4294967295".to_string()), Some(u32::MAX));
    assert_eq!(parse_id("-5".to_string()), None);
    assert_eq!(parse_id("mc+5".to_string()), None);
    assert_eq!(parse_id("mc12٣".to_string()), None);
    assert_eq!(parse_id("mc12²".to_string()), None);
}

#[test]
fn parse_id_agrees_with_the_plain_reading() {
    for s in [
        "", "1", "mc1", "mc", "mcmc", "m", "c", "cm1", "mc1mc2", "amc12b", "mc12٣4", "12mc", "mc 1",
        "MC1", "mc0007", "漫画mc8", "mc８", "mmcc1", "mcm1c2", "1mc2", "mc1.5", "mc①",
    ] {
        assert_eq!(parse_id(s.to_string()), plain_parse_id(s.to_string()));
    }
}

#[test]
fn bytes_with_unit_chooses_the_unit() {
    assert_eq!(bytes_with_unit(0), ByteSize { whole: 0, rest: 0, unit: ByteUnit::B });
    assert_eq!(bytes_with_unit(1023).unit, ByteUnit::B);
    assert_eq!(bytes_with_unit(1024), ByteSize { whole: 1024, rest: 0, unit: ByteUnit::B });
    assert_eq!(bytes_with_unit(1025), ByteSize { whole: 1, rest: 1, unit: ByteUnit::KB });
    assert_eq!(bytes_with_unit(1536), ByteSize { whole: 1, rest: 512, unit: ByteUnit::KB });
    assert_eq!(bytes_with_unit(1 << 20), ByteSize { whole: 1024, rest: 0, unit: ByteUnit::KB });
    assert_eq!(bytes_with_unit((1 << 20) + 1).unit, ByteUnit::MB);
    assert_eq!(bytes_with_unit(1 << 30).unit, ByteUnit::MB);
    assert_eq!(bytes_with_unit((1 << 30) + 1).unit, ByteUnit::GB);
    assert_eq!(bytes_with_unit(1 << 40).unit, ByteUnit::GB);
    assert_eq!(bytes_with_unit((1 << 40) + 1).unit, ByteUnit::TB);
    assert_eq!(
        bytes_with_unit(u64::MAX),
        ByteSize { whole: (1 << 24) - 1, rest: (1 << 40) - 1, unit: ByteUnit::TB }
    );
}

#[test]
fn bytes_with_unit_agrees_with_the_scaled_number() {
    for bytes in [0u64, 1, 1024, 1025, 5000, 1 << 20, (1 << 20) + 1, 123_456_789, 1 << 41] {
        let mut scaled = bytes as f64;
        let mut unit = "B";
        for next in ["KB", "MB", "GB", "TB"] {
            if scaled > 1024. {
                scaled /= 1024.;
                unit = next;
            }
        }
        let size = bytes_with_unit(bytes);
        assert_eq!(size.unit.label(), unit);
        assert_eq!(bytes as f64 / size.unit.bytes() as f64, scaled);
        assert_eq!(size.whole * size.unit.bytes() + size.rest, bytes);
        assert!(size.rest < size.unit.bytes());
    }
}

#[test]
fn byte_units_have_names_and_sizes() {
    assert_eq!(ByteUnit::B.label(), "B");
    assert_eq!(ByteUnit::KB.label(), "KB");
    assert_eq!(ByteUnit::MB.label(), "MB");
    assert_eq!(ByteUnit::GB.label(), "GB");
    assert_eq!(ByteUnit::TB.label(), "TB");
    assert_eq!(ByteUnit::B.bytes(), 1);
    assert_eq!(ByteUnit::KB.bytes(), 1024);
    assert_eq!(ByteUnit::TB.bytes(), 1024u64.pow(4));
}
