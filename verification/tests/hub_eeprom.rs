use iso_usb_hub::hub_eeprom::{dirty_pages, make_eeprom_image, page_write_packet};

#[test]
fn image_holds_ids_check_byte_and_strings() {
    let image = make_eeprom_image();
    assert_eq!(&image[0..5], &[0x86, 0x1A, 0x94, 0x80, 0xB5]);
    assert_eq!(&image[5..11], &[0xFF, 0x00, 0x04, 0x32, 0x5A, 0x57]);
    assert_eq!(&image[0x0B..0x10], &[0xFF; 5]);
    assert_eq!(image[0x10], 8);
    assert_eq!(&image[0x11..0x19], &[b'I', 0, b'v', 0, b'a', 0, b'n', 0]);
    assert_eq!(image[0x3F], 24);
    assert_eq!(image[0x40], 22);
    let product: Vec<u8> = b"ISO USB Hub".iter().flat_map(|&c| [c, 0]).collect();
    assert_eq!(&image[0x41..0x41 + 22], &product[..]);
    assert_eq!(image[0x6F], 0x02);
    assert_eq!(image[0x70], 0x00);
    assert!(image[0x71..].iter().all(|&b| b == 0xFF));
    assert_eq!(image[0x19], 0xFF);
}

#[test]
fn only_differing_pages_are_rewritten() {
    let target = make_eeprom_image();
    assert!(dirty_pages(&target, &target).is_empty());
    let mut current = target;
    current[0x45] ^= 1;
    current[0xFF] = 0;
    assert_eq!(dirty_pages(&current, &target), vec![0x40, 0xE0]);
    let blank = [0xFFu8; 256];
    assert_eq!(dirty_pages(&blank, &target), vec![0x00, 0x20, 0x40, 0x60]);
}

#[test]
fn page_packet_starts_with_the_address() {
    assert_eq!(page_write_packet(0x0120, &[1, 2, 3]), vec![0x01, 0x20, 1, 2, 3]);
}

#[test]
fn rewriting_the_dirty_pages_gives_the_target() {
    let target = make_eeprom_image();
    let mut current = [0u8; 256];
    current[0x90] = 0xFF;
    for off in dirty_pages(&current, &target) {
        current[off..off + 32].copy_from_slice(&target[off..off + 32]);
    }
    assert_eq!(current, target);
    assert!(dirty_pages(&current, &target).is_empty());
}
