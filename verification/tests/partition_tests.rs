use omnect_image::partition::{resolve_partition_number, DisklabelType, Partition};
use omnect_image::Error;

#[test]
fn numbering_table_boot_and_roota_ignore_disklabel() {
    for label in [None, Some(DisklabelType::Gpt), Some(DisklabelType::Dos)] {
        assert_eq!(resolve_partition_number(&Partition::boot, label), Ok(1));
        assert_eq!(resolve_partition_number(&Partition::rootA, label), Ok(2));
    }
}

#[test]
fn numbering_table_factory_and_cert() {
    assert_eq!(
        resolve_partition_number(&Partition::factory, Some(DisklabelType::Gpt)),
        Ok(4)
    );
    assert_eq!(
        resolve_partition_number(&Partition::factory, Some(DisklabelType::Dos)),
        Ok(5)
    );
    assert_eq!(
        resolve_partition_number(&Partition::cert, Some(DisklabelType::Gpt)),
        Ok(5)
    );
    assert_eq!(
        resolve_partition_number(&Partition::cert, Some(DisklabelType::Dos)),
        Ok(6)
    );
}

#[test]
fn numbering_table_unknown_disklabel_is_format_error() {
    assert_eq!(
        resolve_partition_number(&Partition::factory, None),
        Err(Error::Format)
    );
    assert_eq!(
        resolve_partition_number(&Partition::cert, None),
        Err(Error::Format)
    );
}

#[test]
fn partition_names_parse() {
    assert_eq!(Partition::parse("boot"), Ok(Partition::boot));
    assert_eq!(Partition::parse("rootA"), Ok(Partition::rootA));
    assert_eq!(Partition::parse("cert"), Ok(Partition::cert));
    assert_eq!(Partition::parse("factory"), Ok(Partition::factory));
    assert_eq!(Partition::parse("rootB"), Err(Error::Config));
    assert_eq!(Partition::parse(""), Err(Error::Config));
    assert_eq!(Partition::parse("Boot"), Err(Error::Config));
}
