use forgeerp::common::{Aggregate, AggregateId, AggregateRoot, DomainError, TenantId, Timestamp};
use forgeerp::products::{
    ActivateProduct, ArchiveProduct, CreateProduct, PricingMetadata, Product, ProductActivated,
    ProductArchived, ProductCommand, ProductCreated, ProductEvent, ProductId, ProductStatus,
};

fn test_tenant_id() -> TenantId {
    TenantId::new()
}

fn test_product_id() -> ProductId {
    ProductId::new(AggregateId::new())
}

fn test_time() -> Timestamp {
    Timestamp::now()
}

#[test]
fn create_product_emits_product_created_event() {
    let product = Product::empty(test_product_id());
    let tenant_id = test_tenant_id();
    let product_id = test_product_id();
    let cmd = CreateProduct {
        tenant_id,
        product_id,
        sku: "SKU-001".to_string(),
        name: "Test Product".to_string(),
        pricing: None,
        occurred_at: test_time(),
    };

    let events = product.handle(&ProductCommand::CreateProduct(cmd.clone())).unwrap();
    assert_eq!(events.len(), 1);

    match &events[0] {
        ProductEvent::ProductCreated(e) => {
            assert_eq!(e.tenant_id, tenant_id);
            assert_eq!(e.product_id, product_id);
            assert_eq!(e.sku, "SKU-001");
            assert_eq!(e.name, "Test Product");
        }
        _ => panic!("Expected ProductCreated event"),
    }
}

#[test]
fn create_product_rejects_empty_name() {
    let product = Product::empty(test_product_id());
    let cmd = CreateProduct {
        tenant_id: test_tenant_id(),
        product_id: test_product_id(),
        sku: "SKU-001".to_string(),
        name: "   ".to_string(),
        pricing: None,
        occurred_at: test_time(),
    };

    let err = product.handle(&ProductCommand::CreateProduct(cmd)).unwrap_err();
    match err {
        DomainError::Validation(_) => {}
        _ => panic!("Expected Validation error for empty name"),
    }
}

#[test]
fn create_product_rejects_empty_sku() {
    let product = Product::empty(test_product_id());
    let cmd = CreateProduct {
        tenant_id: test_tenant_id(),
        product_id: test_product_id(),
        sku: "   ".to_string(),
        name: "Test Product".to_string(),
        pricing: None,
        occurred_at: test_time(),
    };

    let err = product.handle(&ProductCommand::CreateProduct(cmd)).unwrap_err();
    match err {
        DomainError::Validation(_) => {}
        _ => panic!("Expected Validation error for empty SKU"),
    }
}

#[test]
fn create_product_rejects_duplicate_creation() {
    let mut product = Product::empty(test_product_id());
    let tenant_id = test_tenant_id();
    let product_id = test_product_id();
    let create_cmd = CreateProduct {
        tenant_id,
        product_id,
        sku: "SKU-001".to_string(),
        name: "Test Product".to_string(),
        pricing: None,
        occurred_at: test_time(),
    };

    // Create the product
    let events = product.handle(&ProductCommand::CreateProduct(create_cmd.clone())).unwrap();
    product.apply(&events[0]);

    // Try to create again
    let err = product.handle(&ProductCommand::CreateProduct(create_cmd)).unwrap_err();
    match err {
        DomainError::Conflict(_) => {}
        _ => panic!("Expected Conflict error for duplicate creation"),
    }
}

#[test]
fn create_product_with_pricing_metadata() {
    let product = Product::empty(test_product_id());
    let pricing = PricingMetadata {
        base_price: Some(9999), // $99.99 in cents
        currency: Some("USD".to_string()),
    };
    let cmd = CreateProduct {
        tenant_id: test_tenant_id(),
        product_id: test_product_id(),
        sku: "SKU-001".to_string(),
        name: "Test Product".to_string(),
        pricing: Some(pricing.clone()),
        occurred_at: test_time(),
    };

    let events = product.handle(&ProductCommand::CreateProduct(cmd)).unwrap();
    match &events[0] {
        ProductEvent::ProductCreated(e) => {
            assert_eq!(e.pricing.base_price, pricing.base_price);
            assert_eq!(e.pricing.currency, pricing.currency);
        }
        _ => panic!("Expected ProductCreated event"),
    }
}

#[test]
fn activate_product_emits_product_activated_event() {
    let mut product = Product::empty(test_product_id());
    let tenant_id = test_tenant_id();
    let product_id = test_product_id();
    let create_cmd = CreateProduct {
        tenant_id,
        product_id,
        sku: "SKU-001".to_string(),
        name: "Test Product".to_string(),
        pricing: None,
        occurred_at: test_time(),
    };

    // Create the product first
    let events = product.handle(&ProductCommand::CreateProduct(create_cmd)).unwrap();
    product.apply(&events[0]);
    assert_eq!(product.status(), ProductStatus::Draft);

    // Activate product
    let activate_cmd = ActivateProduct {
        tenant_id,
        product_id,
        occurred_at: test_time(),
    };

    let events = product.handle(&ProductCommand::ActivateProduct(activate_cmd.clone())).unwrap();
    assert_eq!(events.len(), 1);

    match &events[0] {
        ProductEvent::ProductActivated(e) => {
            assert_eq!(e.tenant_id, tenant_id);
            assert_eq!(e.product_id, product_id);
        }
        _ => panic!("Expected ProductActivated event"),
    }
}

#[test]
fn activate_product_updates_status_to_active() {
    let mut product = Product::empty(test_product_id());
    let tenant_id = test_tenant_id();
    let product_id = test_product_id();
    let create_cmd = CreateProduct {
        tenant_id,
        product_id,
        sku: "SKU-001".to_string(),
        name: "Test Product".to_string(),
        pricing: None,
        occurred_at: test_time(),
    };

    let events = product.handle(&ProductCommand::CreateProduct(create_cmd)).unwrap();
    product.apply(&events[0]);
    assert_eq!(product.status(), ProductStatus::Draft);

    let activate_cmd = ActivateProduct {
        tenant_id,
        product_id,
        occurred_at: test_time(),
    };

    let events = product.handle(&ProductCommand::ActivateProduct(activate_cmd)).unwrap();
    product.apply(&events[0]);
    assert_eq!(product.status(), ProductStatus::Active);
    assert!(product.can_be_sold());
}

#[test]
fn activate_product_rejects_already_active() {
    let mut product = Product::empty(test_product_id());
    let tenant_id = test_tenant_id();
    let product_id = test_product_id();
    let create_cmd = CreateProduct {
        tenant_id,
        product_id,
        sku: "SKU-001".to_string(),
        name: "Test Product".to_string(),
        pricing: None,
        occurred_at: test_time(),
    };

    let events = product.handle(&ProductCommand::CreateProduct(create_cmd)).unwrap();
    product.apply(&events[0]);

    let activate_cmd = ActivateProduct {
        tenant_id,
        product_id,
        occurred_at: test_time(),
    };
    let events = product.handle(&ProductCommand::ActivateProduct(activate_cmd.clone())).unwrap();
    product.apply(&events[0]);

    // Try to activate again
    let err = product.handle(&ProductCommand::ActivateProduct(activate_cmd)).unwrap_err();
    match err {
        DomainError::Conflict(_) => {}
        _ => panic!("Expected Conflict error for already active product"),
    }
}

#[test]
fn activate_product_rejects_archived_product() {
    let mut product = Product::empty(test_product_id());
    let tenant_id = test_tenant_id();
    let product_id = test_product_id();
    let create_cmd = CreateProduct {
        tenant_id,
        product_id,
        sku: "SKU-001".to_string(),
        name: "Test Product".to_string(),
        pricing: None,
        occurred_at: test_time(),
    };

    let events = product.handle(&ProductCommand::CreateProduct(create_cmd)).unwrap();
    product.apply(&events[0]);

    // Archive the product
    let archive_cmd = ArchiveProduct {
        tenant_id,
        product_id,
        occurred_at: test_time(),
    };
    let events = product.handle(&ProductCommand::ArchiveProduct(archive_cmd)).unwrap();
    product.apply(&events[0]);

    // Try to activate archived product
    let activate_cmd = ActivateProduct {
        tenant_id,
        product_id,
        occurred_at: test_time(),
    };

    let err = product.handle(&ProductCommand::ActivateProduct(activate_cmd)).unwrap_err();
    match err {
        DomainError::InvariantViolation(msg) if msg.contains("archived products cannot be activated") => {}
        _ => panic!("Expected InvariantViolation error for archived product"),
    }
}

#[test]
fn archive_product_emits_product_archived_event() {
    let mut product = Product::empty(test_product_id());
    let tenant_id = test_tenant_id();
    let product_id = test_product_id();
    let create_cmd = CreateProduct {
        tenant_id,
        product_id,
        sku: "SKU-001".to_string(),
        name: "Test Product".to_string(),
        pricing: None,
        occurred_at: test_time(),
    };

    let events = product.handle(&ProductCommand::CreateProduct(create_cmd)).unwrap();
    product.apply(&events[0]);

    let archive_cmd = ArchiveProduct {
        tenant_id,
        product_id,
        occurred_at: test_time(),
    };

    let events = product.handle(&ProductCommand::ArchiveProduct(archive_cmd.clone())).unwrap();
    assert_eq!(events.len(), 1);

    match &events[0] {
        ProductEvent::ProductArchived(e) => {
            assert_eq!(e.tenant_id, tenant_id);
            assert_eq!(e.product_id, product_id);
        }
        _ => panic!("Expected ProductArchived event"),
    }
}

#[test]
fn archive_product_updates_status_to_archived() {
    let mut product = Product::empty(test_product_id());
    let tenant_id = test_tenant_id();
    let product_id = test_product_id();
    let create_cmd = CreateProduct {
        tenant_id,
        product_id,
        sku: "SKU-001".to_string(),
        name: "Test Product".to_string(),
        pricing: None,
        occurred_at: test_time(),
    };

    let events = product.handle(&ProductCommand::CreateProduct(create_cmd)).unwrap();
    product.apply(&events[0]);

    // Activate first
    let activate_cmd = ActivateProduct {
        tenant_id,
        product_id,
        occurred_at: test_time(),
    };
    let events = product.handle(&ProductCommand::ActivateProduct(activate_cmd)).unwrap();
    product.apply(&events[0]);
    assert_eq!(product.status(), ProductStatus::Active);
    assert!(product.can_be_sold());

    // Archive
    let archive_cmd = ArchiveProduct {
        tenant_id,
        product_id,
        occurred_at: test_time(),
    };
    let events = product.handle(&ProductCommand::ArchiveProduct(archive_cmd)).unwrap();
    product.apply(&events[0]);
    assert_eq!(product.status(), ProductStatus::Archived);
    assert!(!product.can_be_sold());
}

#[test]
fn archive_product_rejects_already_archived() {
    let mut product = Product::empty(test_product_id());
    let tenant_id = test_tenant_id();
    let product_id = test_product_id();
    let create_cmd = CreateProduct {
        tenant_id,
        product_id,
        sku: "SKU-001".to_string(),
        name: "Test Product".to_string(),
        pricing: None,
        occurred_at: test_time(),
    };

    let events = product.handle(&ProductCommand::CreateProduct(create_cmd)).unwrap();
    product.apply(&events[0]);

    let archive_cmd = ArchiveProduct {
        tenant_id,
        product_id,
        occurred_at: test_time(),
    };
    let events = product.handle(&ProductCommand::ArchiveProduct(archive_cmd.clone())).unwrap();
    product.apply(&events[0]);

    // Try to archive again
    let err = product.handle(&ProductCommand::ArchiveProduct(archive_cmd)).unwrap_err();
    match err {
        DomainError::Conflict(_) => {}
        _ => panic!("Expected Conflict error for already archived product"),
    }
}

#[test]
fn archived_products_cannot_be_sold() {
    let mut product = Product::empty(test_product_id());
    let tenant_id = test_tenant_id();
    let product_id = test_product_id();
    let create_cmd = CreateProduct {
        tenant_id,
        product_id,
        sku: "SKU-001".to_string(),
        name: "Test Product".to_string(),
        pricing: None,
        occurred_at: test_time(),
    };

    let events = product.handle(&ProductCommand::CreateProduct(create_cmd)).unwrap();
    product.apply(&events[0]);

    // Draft products cannot be sold
    assert!(!product.can_be_sold());

    // Activate
    let activate_cmd = ActivateProduct {
        tenant_id,
        product_id,
        occurred_at: test_time(),
    };
    let events = product.handle(&ProductCommand::ActivateProduct(activate_cmd)).unwrap();
    product.apply(&events[0]);
    assert!(product.can_be_sold());

    // Archive
    let archive_cmd = ArchiveProduct {
        tenant_id,
        product_id,
        occurred_at: test_time(),
    };
    let events = product.handle(&ProductCommand::ArchiveProduct(archive_cmd)).unwrap();
    product.apply(&events[0]);
    assert!(!product.can_be_sold());
}

#[test]
fn archive_product_rejects_non_existent_product() {
    let product = Product::empty(test_product_id());
    let archive_cmd = ArchiveProduct {
        tenant_id: test_tenant_id(),
        product_id: test_product_id(),
        occurred_at: test_time(),
    };

    let err = product.handle(&ProductCommand::ArchiveProduct(archive_cmd)).unwrap_err();
    match err {
        DomainError::NotFound => {}
        _ => panic!("Expected NotFound error for non-existent product"),
    }
}

#[test]
fn archive_product_rejects_wrong_tenant() {
    let mut product = Product::empty(test_product_id());
    let tenant_id = test_tenant_id();
    let product_id = test_product_id();
    let create_cmd = CreateProduct {
        tenant_id,
        product_id,
        sku: "SKU-001".to_string(),
        name: "Test Product".to_string(),
        pricing: None,
        occurred_at: test_time(),
    };

    let events = product.handle(&ProductCommand::CreateProduct(create_cmd)).unwrap();
    product.apply(&events[0]);

    // Try to archive with wrong tenant
    let wrong_tenant = test_tenant_id();
    let archive_cmd = ArchiveProduct {
        tenant_id: wrong_tenant,
        product_id,
        occurred_at: test_time(),
    };

    let err = product.handle(&ProductCommand::ArchiveProduct(archive_cmd)).unwrap_err();
    match err {
        DomainError::InvariantViolation(_) => {}
        _ => panic!("Expected InvariantViolation error for tenant mismatch"),
    }
}

#[test]
fn product_version_increments_on_apply() {
    let mut product = Product::empty(test_product_id());
    assert_eq!(product.version(), 0);

    let tenant_id = test_tenant_id();
    let product_id = test_product_id();
    let create_cmd = CreateProduct {
        tenant_id,
        product_id,
        sku: "SKU-001".to_string(),
        name: "Test Product".to_string(),
        pricing: None,
        occurred_at: test_time(),
    };

    let events = product.handle(&ProductCommand::CreateProduct(create_cmd)).unwrap();
    product.apply(&events[0]);
    assert_eq!(product.version(), 1);

    let activate_cmd = ActivateProduct {
        tenant_id,
        product_id,
        occurred_at: test_time(),
    };
    let events = product.handle(&ProductCommand::ActivateProduct(activate_cmd)).unwrap();
    product.apply(&events[0]);
    assert_eq!(product.version(), 2);

    let archive_cmd = ArchiveProduct {
        tenant_id,
        product_id,
        occurred_at: test_time(),
    };
    let events = product.handle(&ProductCommand::ArchiveProduct(archive_cmd)).unwrap();
    product.apply(&events[0]);
    assert_eq!(product.version(), 3);
}

#[test]
fn product_handle_does_not_mutate_state() {
    let mut product = Product::empty(test_product_id());
    let tenant_id = test_tenant_id();
    let product_id = test_product_id();
    let create_cmd = CreateProduct {
        tenant_id,
        product_id,
        sku: "SKU-001".to_string(),
        name: "Test Product".to_string(),
        pricing: None,
        occurred_at: test_time(),
    };

    let events = product.handle(&ProductCommand::CreateProduct(create_cmd.clone())).unwrap();
    product.apply(&events[0]);
    let initial_version = product.version();
    let initial_status = product.status();

    let activate_cmd = ActivateProduct {
        tenant_id,
        product_id,
        occurred_at: test_time(),
    };

    let events1 = product.handle(&ProductCommand::ActivateProduct(activate_cmd.clone())).unwrap();
    let version_after_handle1 = product.version();
    let status_after_handle1 = product.status();

    let events2 = product.handle(&ProductCommand::ActivateProduct(activate_cmd.clone())).unwrap();
    let version_after_handle2 = product.version();
    let status_after_handle2 = product.status();

    assert_eq!(version_after_handle1, initial_version);
    assert_eq!(version_after_handle2, initial_version);
    assert_eq!(status_after_handle1, initial_status);
    assert_eq!(status_after_handle2, initial_status);

    assert_eq!(events1, events2);
}

#[test]
fn product_apply_is_deterministic() {
    let tenant_id = test_tenant_id();
    let product_id = test_product_id();
    let event1 = ProductEvent::ProductCreated(ProductCreated {
        tenant_id,
        product_id,
        sku: "SKU-001".to_string(),
        name: "Test Product".to_string(),
        pricing: PricingMetadata::default(),
        occurred_at: test_time(),
    });
    let event2 = ProductEvent::ProductActivated(ProductActivated {
        tenant_id,
        product_id,
        occurred_at: test_time(),
    });
    let event3 = ProductEvent::ProductArchived(ProductArchived {
        tenant_id,
        product_id,
        occurred_at: test_time(),
    });

    let mut product1 = Product::empty(product_id);
    product1.apply(&event1);
    product1.apply(&event2);
    product1.apply(&event3);

    let mut product2 = Product::empty(product_id);
    product2.apply(&event1);
    product2.apply(&event2);
    product2.apply(&event3);

    assert_eq!(product1.version(), product2.version());
    assert_eq!(product1.status(), product2.status());
    assert_eq!(product1.sku(), product2.sku());
    assert_eq!(product1.name(), product2.name());
    assert_eq!(product1.tenant_id(), product2.tenant_id());
    assert_eq!(product1.status(), ProductStatus::Archived);
    assert_eq!(product1.version(), 3);
}
